use vstd::prelude::*;
use crate::token::{Token, TokenOf, TokenView, Span};
use crate::text::{push_char, str_to_chars, chars_to_string};

verus! {

/// Whether a character has the Unicode `Alphabetic` property (`char::is_alphabetic`).
pub uninterp spec fn char_is_alphabetic(c: char) -> bool;

/// Whether a character is in a Unicode numeric category (`char::is_numeric`).
pub uninterp spec fn char_is_numeric(c: char) -> bool;

/// `char::is_alphabetic`; its result is named by `char_is_alphabetic`.
#[verifier::external_body]
fn is_alphabetic(c: char) -> (r: bool)
    ensures
        r == char_is_alphabetic(c),
{
    c.is_alphabetic()
}

/// `char::is_numeric`; its result is named by `char_is_numeric`.
#[verifier::external_body]
fn is_numeric(c: char) -> (r: bool)
    ensures
        r == char_is_numeric(c),
{
    c.is_numeric()
}

/// Whether a character is alphabetic (`char::is_alphabetic`): among ASCII
/// characters exactly the Latin letters.
pub open spec fn alphabetic(c: char) -> bool {
    if c <= '\x7f' {
        'a' <= c <= 'z' || 'A' <= c <= 'Z'
    } else {
        char_is_alphabetic(c)
    }
}

/// Whether a character is numeric (`char::is_numeric`): among ASCII
/// characters exactly the digits.
pub open spec fn numeric(c: char) -> bool {
    if c <= '\x7f' {
        '0' <= c <= '9'
    } else {
        char_is_numeric(c)
    }
}

/// Whether a character is alphabetic; ASCII is decided here, other
/// characters by `char::is_alphabetic`.
fn alphabetic_char(c: char) -> (r: bool)
    ensures
        r == alphabetic(c),
{
    if c <= '\x7f' {
        ('a' <= c && c <= 'z') || ('A' <= c && c <= 'Z')
    } else {
        is_alphabetic(c)
    }
}

/// Whether a character is numeric; ASCII is decided here, other characters
/// by `char::is_numeric`.
fn numeric_char(c: char) -> (r: bool)
    ensures
        r == numeric(c),
{
    if c <= '\x7f' {
        '0' <= c && c <= '9'
    } else {
        is_numeric(c)
    }
}

/// `char::is_alphanumeric`, which std documents as alphabetic or numeric.
pub open spec fn is_alphanumeric(c: char) -> bool {
    alphabetic(c) || numeric(c)
}

/// Characters that may continue an identifier.
pub open spec fn is_ident_char(c: char) -> bool {
    is_alphanumeric(c) || c == '_'
}

pub open spec fn is_ascii_digit(c: char) -> bool {
    '0' <= c && c <= '9'
}

/// Whitespace that separates tokens (newlines are tokens themselves).
pub open spec fn is_blank(c: char) -> bool {
    c == ' ' || c == '\t' || c == '\r'
}

/// The character at `i`, if any.
pub open spec fn char_at(s: Seq<char>, i: nat) -> Option<char> {
    if i < s.len() {
        Some(s[i as int])
    } else {
        None
    }
}

/// Line (from 1) of the character at `p`.
pub open spec fn line_at(s: Seq<char>, p: nat) -> nat
    decreases p,
{
    if p == 0 {
        1
    } else if s[p - 1] == '\n' {
        line_at(s, (p - 1) as nat) + 1
    } else {
        line_at(s, (p - 1) as nat)
    }
}

/// Column (from 1) of the character at `p`.
pub open spec fn column_at(s: Seq<char>, p: nat) -> nat
    decreases p,
{
    if p == 0 {
        1
    } else if s[p - 1] == '\n' {
        1
    } else {
        column_at(s, (p - 1) as nat) + 1
    }
}

/// First index at or after `i` that is not blank.
pub open spec fn skip_blanks(s: Seq<char>, i: nat) -> nat
    decreases s.len() - i,
{
    if i < s.len() && is_blank(s[i as int]) {
        skip_blanks(s, i + 1)
    } else {
        i
    }
}

/// First index at or after `i` that holds a newline (or the end).
pub open spec fn comment_end(s: Seq<char>, i: nat) -> nat
    decreases s.len() - i,
{
    if i < s.len() && s[i as int] != '\n' {
        comment_end(s, i + 1)
    } else {
        i
    }
}

/// First index at or after `i` that is not an ASCII digit.
pub open spec fn digits_end(s: Seq<char>, i: nat) -> nat
    decreases s.len() - i,
{
    if i < s.len() && is_ascii_digit(s[i as int]) {
        digits_end(s, i + 1)
    } else {
        i
    }
}

/// First index at or after `i` that cannot continue an identifier.
pub open spec fn ident_end(s: Seq<char>, i: nat) -> nat
    decreases s.len() - i,
{
    if i < s.len() && is_ident_char(s[i as int]) {
        ident_end(s, i + 1)
    } else {
        i
    }
}

/// End of a numeric literal starting at `i`: digits, then optionally a
/// point followed by at least one digit and more digits.
pub open spec fn number_end(s: Seq<char>, i: nat) -> nat {
    let j = digits_end(s, i);
    if j + 1 < s.len() && s[j as int] == '.' && is_ascii_digit(s[(j + 1) as int]) {
        digits_end(s, j + 1)
    } else {
        j
    }
}

/// What an escape `\c` stands for in a string literal.
pub open spec fn escape_text(c: char) -> Seq<char> {
    if c == 'n' {
        seq!['\n']
    } else if c == 't' {
        seq!['\t']
    } else if c == 'r' {
        seq!['\r']
    } else if c == '\\' {
        seq!['\\']
    } else if c == '"' {
        seq!['"']
    } else {
        seq!['\\', c]
    }
}

/// Contents and end of a string literal whose body starts at `i` (just
/// after the opening quote). The literal ends after its closing quote or at
/// the end of the input; a backslash as the last character is kept.
pub open spec fn scan_string(s: Seq<char>, i: nat) -> (Seq<char>, nat)
    decreases s.len() - i,
{
    if i >= s.len() {
        (Seq::empty(), i)
    } else if s[i as int] == '"' {
        (Seq::empty(), i + 1)
    } else if s[i as int] == '\\' {
        if i + 1 >= s.len() {
            (seq!['\\'], i + 1)
        } else {
            let rest = scan_string(s, i + 2);
            (escape_text(s[(i + 1) as int]) + rest.0, rest.1)
        }
    } else {
        let rest = scan_string(s, i + 1);
        (seq![s[i as int]] + rest.0, rest.1)
    }
}

/// A second word after a word ending at `e`: a space, more blanks, then a
/// word starting with an alphabetic character. Gives its start and end.
pub open spec fn second_word(s: Seq<char>, e: nat) -> Option<(nat, nat)> {
    if e < s.len() && s[e as int] == ' ' {
        let j = skip_blanks(s, e);
        if j < s.len() && alphabetic(s[j as int]) {
            Some((j, ident_end(s, j)))
        } else {
            None
        }
    } else {
        None
    }
}

/// The two-word operators: `is not`, `greater than`, `less than`,
/// `at least`, `at most`.
pub open spec fn two_word_token(first: Seq<char>, second: Seq<char>) -> Option<TokenView> {
    if first == "is"@ && second == "not"@ {
        Some(TokenOf::IsNot)
    } else if first == "greater"@ && second == "than"@ {
        Some(TokenOf::GreaterThan)
    } else if first == "less"@ && second == "than"@ {
        Some(TokenOf::LessThan)
    } else if first == "at"@ && second == "least"@ {
        Some(TokenOf::AtLeast)
    } else if first == "at"@ && second == "most"@ {
        Some(TokenOf::AtMost)
    } else {
        None
    }
}

/// Token and end of a word starting at `i`.
pub open spec fn scan_word(s: Seq<char>, i: nat) -> (TokenView, nat) {
    let e = ident_end(s, i);
    let text = s.subrange(i as int, e as int);
    match second_word(s, e) {
        Some((j, e2)) => match two_word_token(text, s.subrange(j as int, e2 as int)) {
            Some(t) => (t, e2),
            None => (keyword_token(text), e),
        },
        None => (keyword_token(text), e),
    }
}

/// The token for a word: its keyword, or an identifier.
pub open spec fn keyword_token(text: Seq<char>) -> TokenView {
    if text == "bind"@ {
        TokenOf::Bind
    }
    else if text == "weave"@ {
        TokenOf::Weave
    }
    else if text == "set"@ {
        TokenOf::SetKeyword
    }
    else if text == "to"@ {
        TokenOf::To
    }
    else if text == "as"@ {
        TokenOf::As
    }
    else if text == "should"@ {
        TokenOf::Should
    }
    else if text == "then"@ {
        TokenOf::Then
    }
    else if text == "end"@ {
        TokenOf::End
    }
    else if text == "otherwise"@ {
        TokenOf::Otherwise
    }
    else if text == "for"@ {
        TokenOf::For
    }
    else if text == "each"@ {
        TokenOf::Each
    }
    else if text == "in"@ {
        TokenOf::In
    }
    else if text == "range"@ {
        TokenOf::Range
    }
    else if text == "whilst"@ {
        TokenOf::Whilst
    }
    else if text == "break"@ {
        TokenOf::Break
    }
    else if text == "continue"@ {
        TokenOf::Continue
    }
    else if text == "chant"@ {
        TokenOf::Chant
    }
    else if text == "yield"@ {
        TokenOf::Yield
    }
    else if text == "form"@ {
        TokenOf::Form
    }
    else if text == "variant"@ {
        TokenOf::Variant
    }
    else if text == "seek"@ {
        TokenOf::Seek
    }
    else if text == "where"@ {
        TokenOf::Where
    }
    else if text == "by"@ {
        TokenOf::By
    }
    else if text == "filter"@ {
        TokenOf::Filter
    }
    else if text == "sort"@ {
        TokenOf::Sort
    }
    else if text == "take"@ {
        TokenOf::Take
    }
    else if text == "first"@ {
        TokenOf::First
    }
    else if text == "last"@ {
        TokenOf::Last
    }
    else if text == "attempt"@ {
        TokenOf::Attempt
    }
    else if text == "harmonize"@ {
        TokenOf::Harmonize
    }
    else if text == "on"@ {
        TokenOf::On
    }
    else if text == "match"@ {
        TokenOf::Match
    }
    else if text == "when"@ {
        TokenOf::When
    }
    else if text == "with"@ {
        TokenOf::With
    }
    else if text == "request"@ {
        TokenOf::Request
    }
    else if text == "justification"@ {
        TokenOf::Justification
    }
    else if text == "Triumph"@ {
        TokenOf::Triumph
    }
    else if text == "Mishap"@ {
        TokenOf::Mishap
    }
    else if text == "Present"@ {
        TokenOf::Present
    }
    else if text == "Absent"@ {
        TokenOf::Absent
    }
    else if text == "after"@ {
        TokenOf::After
    }
    else if text == "before"@ {
        TokenOf::Before
    }
    else if text == "descending"@ {
        TokenOf::Descending
    }
    else if text == "ascending"@ {
        TokenOf::Ascending
    }
    else if text == "true"@ {
        TokenOf::Truth(true)
    }
    else if text == "false"@ {
        TokenOf::Truth(false)
    }
    else if text == "nothing"@ {
        TokenOf::Nothing
    }
    else if text == "is"@ {
        TokenOf::Is
    }
    else if text == "and"@ {
        TokenOf::And
    }
    else if text == "or"@ {
        TokenOf::Or
    }
    else if text == "not"@ {
        TokenOf::Not
    }
    else {
        TokenOf::Ident(text)
    }
}

/// The single-character tokens.
pub open spec fn symbol_token(c: char) -> Option<TokenView> {
    if c == '+' {
        Some(TokenOf::Plus)
    } else if c == '*' {
        Some(TokenOf::Star)
    } else if c == '/' {
        Some(TokenOf::Slash)
    } else if c == '%' {
        Some(TokenOf::Percent)
    } else if c == '|' {
        Some(TokenOf::Pipe)
    } else if c == '(' {
        Some(TokenOf::LeftParen)
    } else if c == ')' {
        Some(TokenOf::RightParen)
    } else if c == '[' {
        Some(TokenOf::LeftBracket)
    } else if c == ']' {
        Some(TokenOf::RightBracket)
    } else if c == '{' {
        Some(TokenOf::LeftBrace)
    } else if c == '}' {
        Some(TokenOf::RightBrace)
    } else if c == ',' {
        Some(TokenOf::Comma)
    } else if c == ':' {
        Some(TokenOf::Colon)
    } else if c == '.' {
        Some(TokenOf::Dot)
    } else if c == '?' {
        Some(TokenOf::Question)
    } else {
        None
    }
}

/// The next token of `s` from position `i`, and the position after it.
///
/// Blanks are skipped; a comment runs to the end of its line; characters
/// that start no token are skipped.
pub open spec fn spec_next_token(s: Seq<char>, i: nat) -> (TokenView, nat)
    decreases s.len() - i,
{
    let k = skip_blanks(s, i);
    if k >= s.len() {
        (TokenOf::Eof, k)
    } else {
        let c = s[k as int];
        let next = char_at(s, k + 1);
        if c == '\n' {
            (TokenOf::Newline, k + 1)
        } else if c == '#' {
            let j = comment_end(s, k);
            if j < s.len() {
                (TokenOf::Newline, j + 1)
            } else {
                (TokenOf::Eof, j)
            }
        } else if c == '"' {
            let r = scan_string(s, k + 1);
            (TokenOf::Text(r.0), r.1)
        } else if is_ascii_digit(c) {
            let e = number_end(s, k);
            (TokenOf::Number(s.subrange(k as int, e as int)), e)
        } else if alphabetic(c) || c == '_' {
            scan_word(s, k)
        } else if c == '-' {
            if next == Some('>') {
                (TokenOf::Arrow, k + 2)
            } else {
                (TokenOf::Minus, k + 1)
            }
        } else if c == '<' {
            if next == Some('=') {
                (TokenOf::AtMost, k + 2)
            } else {
                (TokenOf::LeftAngle, k + 1)
            }
        } else if c == '>' {
            if next == Some('=') {
                (TokenOf::AtLeast, k + 2)
            } else {
                (TokenOf::RightAngle, k + 1)
            }
        } else {
            match symbol_token(c) {
                Some(t) => (t, k + 1),
                None => {
                    proof {
                        lemma_skip_blanks_bounds(s, i);
                    }
                    spec_next_token(s, k + 1)
                },
            }
        }
    }
}

/// All tokens of `s` from position `i`, up to and including `Eof`.
pub open spec fn spec_tokenize(s: Seq<char>, i: nat) -> Seq<TokenView>
    decreases s.len() - i,
{
    let (t, j) = spec_next_token(s, i);
    if t is Eof || j <= i || j > s.len() {
        seq![t]
    } else {
        seq![t].add(spec_tokenize(s, j))
    }
}

pub proof fn lemma_skip_blanks_bounds(s: Seq<char>, i: nat)
    ensures
        i <= skip_blanks(s, i),
        i <= s.len() ==> skip_blanks(s, i) <= s.len(),
        skip_blanks(s, i) < s.len() ==> !is_blank(s[skip_blanks(s, i) as int]),
    decreases s.len() - i,
{
    if i < s.len() && is_blank(s[i as int]) {
        lemma_skip_blanks_bounds(s, i + 1);
    }
}

pub proof fn lemma_comment_end_bounds(s: Seq<char>, i: nat)
    ensures
        i <= comment_end(s, i),
        i <= s.len() ==> comment_end(s, i) <= s.len(),
        comment_end(s, i) < s.len() ==> s[comment_end(s, i) as int] == '\n',
    decreases s.len() - i,
{
    if i < s.len() && s[i as int] != '\n' {
        lemma_comment_end_bounds(s, i + 1);
    }
}

pub proof fn lemma_digits_end_bounds(s: Seq<char>, i: nat)
    ensures
        i <= digits_end(s, i),
        i <= s.len() ==> digits_end(s, i) <= s.len(),
    decreases s.len() - i,
{
    if i < s.len() && is_ascii_digit(s[i as int]) {
        lemma_digits_end_bounds(s, i + 1);
    }
}

pub proof fn lemma_ident_end_bounds(s: Seq<char>, i: nat)
    ensures
        i <= ident_end(s, i),
        i <= s.len() ==> ident_end(s, i) <= s.len(),
    decreases s.len() - i,
{
    if i < s.len() && is_ident_char(s[i as int]) {
        lemma_ident_end_bounds(s, i + 1);
    }
}

pub proof fn lemma_scan_string_bounds(s: Seq<char>, i: nat)
    ensures
        i <= scan_string(s, i).1,
        i <= s.len() ==> scan_string(s, i).1 <= s.len(),
    decreases s.len() - i,
{
    if i >= s.len() {
    } else if s[i as int] == '"' {
    } else if s[i as int] == '\\' {
        if i + 1 < s.len() {
            lemma_scan_string_bounds(s, i + 2);
        }
    } else {
        lemma_scan_string_bounds(s, i + 1);
    }
}

/// Every token but `Eof` takes up at least one character, and no token
/// reaches past the end of the input.
pub proof fn lemma_next_token_progress(s: Seq<char>, i: nat)
    ensures
        i <= s.len() ==> spec_next_token(s, i).1 <= s.len(),
        !(spec_next_token(s, i).0 is Eof) ==> i < spec_next_token(s, i).1,
        spec_next_token(s, i).0 is Eof ==> spec_next_token(s, i).1 >= s.len(),
    decreases s.len() - i,
{
    let k = skip_blanks(s, i);
    lemma_skip_blanks_bounds(s, i);
    if k < s.len() {
        let c = s[k as int];
        if c == '#' {
            lemma_comment_end_bounds(s, k);
        } else if c == '"' {
            lemma_scan_string_bounds(s, k + 1);
        } else if is_ascii_digit(c) {
            lemma_digits_end_bounds(s, k);
            lemma_digits_end_bounds(s, k + 1);
            let j = digits_end(s, k);
            if j + 1 < s.len() && s[j as int] == '.' && is_ascii_digit(s[(j + 1) as int]) {
                lemma_digits_end_bounds(s, j + 1);
            }
        } else if alphabetic(c) || c == '_' {
            lemma_ident_end_bounds(s, k);
            lemma_ident_end_bounds(s, k + 1);
            let e = ident_end(s, k);
            if e < s.len() && s[e as int] == ' ' {
                lemma_skip_blanks_bounds(s, e);
                let j = skip_blanks(s, e);
                if j < s.len() && alphabetic(s[j as int]) {
                    lemma_ident_end_bounds(s, j);
                }
            }
        } else if c == '-' || c == '<' || c == '>' {
        } else if symbol_token(c).is_none() {
            lemma_next_token_progress(s, k + 1);
        }
    }
}

/// Once the input is used up, the next token is `Eof`, and the position
/// stays at the end.
pub proof fn lemma_next_token_at_end(s: Seq<char>)
    ensures
        spec_next_token(s, s.len()) == (TokenOf::<Seq<char>>::Eof, s.len()),
{
}

/// A token list ends with exactly one `Eof`: its last token is `Eof` and no
/// other token is.
pub proof fn lemma_tokenize_single_eof(s: Seq<char>, i: nat)
    requires
        i <= s.len(),
    ensures
        spec_tokenize(s, i).len() >= 1,
        spec_tokenize(s, i).last() is Eof,
        forall|k: int| 0 <= k < spec_tokenize(s, i).len() - 1 ==> !(#[trigger] spec_tokenize(s, i)[k] is Eof),
    decreases s.len() - i,
{
    let (t, j) = spec_next_token(s, i);
    lemma_next_token_progress(s, i);
    if !(t is Eof) {
        lemma_tokenize_single_eof(s, j);
        let rest = spec_tokenize(s, j);
        assert(spec_tokenize(s, i) == seq![t].add(rest));
        assert forall|k: int| 0 <= k < spec_tokenize(s, i).len() - 1 implies !(#[trigger] spec_tokenize(
            s,
            i,
        )[k] is Eof) by {
            if k > 0 {
                assert(spec_tokenize(s, i)[k] == rest[k - 1]);
            }
        }
    }
}

/// Lexer state for tokenizing Glimmer-Weave source code
pub struct Lexer {
    /// Source code as character array
    input: Vec<char>,
    /// Current position in input
    position: usize,
    /// Current character
    current_char: Option<char>,
    /// Current line number (for error reporting)
    line: usize,
    /// Current column number (for error reporting)
    column: usize,
}

/// The words of the two-word operators.
pub open spec fn operator_word(w: Seq<char>) -> bool {
    w == "is"@ || w == "not"@ || w == "greater"@ || w == "than"@ || w == "less"@ || w == "at"@ || w == "least"@
        || w == "most"@
}

/// An operator word is made of lower-case ASCII letters.
proof fn lemma_operator_word_letters(w: Seq<char>)
    requires
        operator_word(w),
    ensures
        w.len() > 0,
        forall|t: int| 0 <= t < w.len() ==> 'a' <= #[trigger] w[t] <= 'z',
{
    reveal_strlit("is");
    reveal_strlit("not");
    reveal_strlit("greater");
    reveal_strlit("than");
    reveal_strlit("less");
    reveal_strlit("at");
    reveal_strlit("least");
    reveal_strlit("most");
    assert forall|t: int| 0 <= t < w.len() implies 'a' <= #[trigger] w[t] <= 'z' by {
        if t == 0 {
        } else if t == 1 {
        } else if t == 2 {
        } else if t == 3 {
        } else if t == 4 {
        } else if t == 5 {
        } else {
        }
    }
}

/// A run of identifier characters from `k` up to `e`, where the input ends
/// or a character follows that cannot continue an identifier, is one word
/// ending at `e`.
proof fn lemma_ident_run(s: Seq<char>, k: nat, e: nat)
    requires
        k <= e <= s.len(),
        forall|t: int| k <= t < e ==> is_ident_char(#[trigger] s[t]),
        e == s.len() || !is_ident_char(s[e as int]),
    ensures
        ident_end(s, k) == e,
    decreases e - k,
{
    if k < e {
        lemma_ident_run(s, k + 1, e);
    }
}

/// A word of lower-case letters spelled out in `s` at `k`, followed by the
/// end or a character that cannot continue it, ends right after its last
/// letter.
proof fn lemma_spelled_word(s: Seq<char>, k: nat, w: Seq<char>)
    requires
        operator_word(w),
        k + w.len() <= s.len(),
        s.subrange(k as int, (k + w.len()) as int) == w,
        k + w.len() == s.len() || !is_ident_char(s[(k + w.len()) as int]),
    ensures
        ident_end(s, k) == k + w.len(),
        alphabetic(s[k as int]),
        !is_ascii_digit(s[k as int]),
{
    lemma_operator_word_letters(w);
    assert forall|t: int| k <= t < k + w.len() implies is_ident_char(#[trigger] s[t]) by {
        assert(s[t] == w[t - k]);
    }
    assert(s[k as int] == w[0]);
    lemma_ident_run(s, k, (k + w.len()) as nat);
}

/// The two-word operators lex as one token each: where the next token of
/// the input starts with the word `is`, `greater`, `less` or `at`, a
/// single space and any further blanks follow, and then the word `not`,
/// `than` or `least`/`most` as a whole word, the token read is `is not`
/// `IsNot`, `greater than` `GreaterThan`, `less than` `LessThan`,
/// `at least` `AtLeast` or `at most` `AtMost`, and reading goes on after
/// the second word.
pub proof fn two_word_operator_law(s: Seq<char>, i: nat, first: Seq<char>, second: Seq<char>)
    requires
        ({
            let k = skip_blanks(s, i);
            let e = k + first.len();
            let j = skip_blanks(s, e);
            &&& e < s.len()
            &&& s.subrange(k as int, e as int) == first
            &&& s[e as int] == ' '
            &&& j + second.len() <= s.len()
            &&& s.subrange(j as int, (j + second.len()) as int) == second
            &&& (j + second.len() == s.len() || !is_ident_char(s[(j + second.len()) as int]))
        }),
        (first == "is"@ && second == "not"@) || (first == "greater"@ && second == "than"@) || (first == "less"@
            && second == "than"@) || (first == "at"@ && second == "least"@) || (first == "at"@ && second == "most"@),
    ensures
        ({
            let end = skip_blanks(s, skip_blanks(s, i) + first.len()) + second.len();
            let read = spec_next_token(s, i);
            &&& first == "is"@ && second == "not"@ ==> read == (TokenOf::<Seq<char>>::IsNot, end)
            &&& first == "greater"@ && second == "than"@ ==> read == (TokenOf::<Seq<char>>::GreaterThan, end)
            &&& first == "less"@ && second == "than"@ ==> read == (TokenOf::<Seq<char>>::LessThan, end)
            &&& first == "at"@ && second == "least"@ ==> read == (TokenOf::<Seq<char>>::AtLeast, end)
            &&& first == "at"@ && second == "most"@ ==> read == (TokenOf::<Seq<char>>::AtMost, end)
        }),
{
    let k = skip_blanks(s, i);
    let e = k + first.len();
    let j = skip_blanks(s, e);
    lemma_operator_word_letters(second);
    lemma_spelled_word(s, k, first);
    assert(!is_ident_char(' '));
    lemma_spelled_word(s, j, second);
    assert(s.subrange(k as int, ident_end(s, k) as int) == first);
    assert(second_word(s, e) == Some((j, j + second.len())));
    assert(s.subrange(j as int, (j + second.len()) as int) == second);
    assert(scan_word(s, k) == (two_word_token(first, second)->Some_0, j + second.len()));
    lemma_operator_word_letters(first);
    assert(s[k as int] == first[0]);
    assert(spec_next_token(s, i) == scan_word(s, k));
    reveal_strlit("is");
    reveal_strlit("not");
    reveal_strlit("greater");
    reveal_strlit("than");
    reveal_strlit("less");
    reveal_strlit("at");
    reveal_strlit("least");
    reveal_strlit("most");
}

/// The symbols `<=`, `>=` and `->` lex as one token each (`AtMost`,
/// `AtLeast`, `Arrow`); `<` and `>` not followed by `=` are angle
/// brackets and `-` not followed by `>` is a minus sign, each one
/// character long.
pub proof fn symbol_operator_law(s: Seq<char>, i: nat)
    requires
        skip_blanks(s, i) < s.len(),
    ensures
        ({
            let k = skip_blanks(s, i);
            let c = s[k as int];
            let next = char_at(s, k + 1);
            let read = spec_next_token(s, i);
            &&& c == '<' && next == Some('=') ==> read == (TokenOf::<Seq<char>>::AtMost, k + 2)
            &&& c == '>' && next == Some('=') ==> read == (TokenOf::<Seq<char>>::AtLeast, k + 2)
            &&& c == '-' && next == Some('>') ==> read == (TokenOf::<Seq<char>>::Arrow, k + 2)
            &&& c == '<' && next != Some('=') ==> read == (TokenOf::<Seq<char>>::LeftAngle, k + 1)
            &&& c == '>' && next != Some('=') ==> read == (TokenOf::<Seq<char>>::RightAngle, k + 1)
            &&& c == '-' && next != Some('>') ==> read == (TokenOf::<Seq<char>>::Minus, k + 1)
        }),
{
}

proof fn lemma_line_column_bound(s: Seq<char>, p: nat)
    ensures
        line_at(s, p) >= 1,
        column_at(s, p) >= 1,
        line_at(s, p) + column_at(s, p) <= p + 2,
    decreases p,
{
    if p > 0 {
        lemma_line_column_bound(s, (p - 1) as nat);
    }
}

impl Lexer {
    /// The source characters being tokenized.
    pub closed spec fn source(&self) -> Seq<char> {
        self.input@
    }

    /// Index of the current character.
    pub closed spec fn pos(&self) -> nat {
        self.position as nat
    }

    /// The lexer's state agrees with its position in the source.
    pub closed spec fn wf(&self) -> bool {
        &&& self.position <= self.input.len()
        &&& self.input.len() < usize::MAX
        &&& self.current_char == char_at(self.input@, self.position as nat)
        &&& self.line == line_at(self.input@, self.position as nat)
        &&& self.column == column_at(self.input@, self.position as nat)
    }

    /// Create a new lexer for the given source code
    pub fn new(input: &str) -> (l: Lexer)
        requires
            input@.len() < usize::MAX,
        ensures
            l.wf(),
            l.source() == input@,
            l.pos() == 0,
    {
        let chars: Vec<char> = str_to_chars(input);
        let current_char = if chars.len() > 0 {
            Some(chars[0])
        } else {
            None
        };
        Lexer { input: chars, position: 0, current_char, line: 1, column: 1 }
    }

    /// Get current position as a Span
    pub fn span(&self) -> (s: Span)
        requires
            self.wf(),
        ensures
            s.line == line_at(self.source(), self.pos()),
            s.column == column_at(self.source(), self.pos()),
    {
        Span::new(self.line, self.column)
    }

    /// Advance to the next character
    fn advance(&mut self)
        requires
            old(self).wf(),
            old(self).position < old(self).input.len(),
        ensures
            final(self).wf(),
            final(self).input@ == old(self).input@,
            final(self).position == old(self).position + 1,
    {
        proof {
            lemma_line_column_bound(self.input@, self.position as nat);
        }
        let is_newline = match self.current_char {
            Some(c) => c == '\n',
            None => false,
        };
        if is_newline {
            self.line = self.line + 1;
            self.column = 1;
        } else {
            self.column = self.column + 1;
        }
        self.position = self.position + 1;
        self.current_char = if self.position < self.input.len() {
            Some(self.input[self.position])
        } else {
            None
        };
    }

    /// Skip whitespace (but NOT newlines - they're significant)
    fn skip_whitespace(&mut self)
        requires
            old(self).wf(),
        ensures
            final(self).wf(),
            final(self).input@ == old(self).input@,
            final(self).position == skip_blanks(old(self).input@, old(self).position as nat),
    {
        let ghost s = self.input@;
        let ghost start = self.position as nat;
        loop
            invariant
                self.wf(),
                self.input@ == s,
                skip_blanks(s, self.position as nat) == skip_blanks(s, start),
            ensures
                self.wf(),
                self.input@ == s,
                self.position == skip_blanks(s, start),
            decreases self.input.len() - self.position,
        {
            match self.current_char {
                Some(c) => {
                    if c == ' ' || c == '\t' || c == '\r' {
                        self.advance();
                    } else {
                        break;
                    }
                },
                None => break,
            }
        }
    }

    /// Skip comment (from `#` to end of line)
    fn skip_comment(&mut self)
        requires
            old(self).wf(),
        ensures
            final(self).wf(),
            final(self).input@ == old(self).input@,
            final(self).position == comment_end(old(self).input@, old(self).position as nat),
    {
        let ghost s = self.input@;
        let ghost start = self.position as nat;
        loop
            invariant
                self.wf(),
                self.input@ == s,
                comment_end(s, self.position as nat) == comment_end(s, start),
            ensures
                self.wf(),
                self.input@ == s,
                self.position == comment_end(s, start),
            decreases self.input.len() - self.position,
        {
            match self.current_char {
                Some(c) => {
                    if c == '\n' {
                        break;
                    }
                    self.advance();
                },
                None => break,
            }
        }
    }

    /// Read a string literal (enclosed in double quotes)
    fn read_string(&mut self) -> (t: Token)
        requires
            old(self).wf(),
            old(self).position < old(self).input.len(),
        ensures
            final(self).wf(),
            final(self).input@ == old(self).input@,
            (t@, final(self).position as nat) == ({
                let r = scan_string(old(self).input@, (old(self).position + 1) as nat);
                (TokenOf::Text(r.0), r.1)
            }),
    {
        let ghost s = self.input@;
        // Skip opening quote
        self.advance();
        let ghost start = self.position as nat;
        let mut result = String::new();
        loop
            invariant_except_break
                result@ + scan_string(s, self.position as nat).0 == scan_string(s, start).0,
                scan_string(s, self.position as nat).1 == scan_string(s, start).1,
            invariant
                self.wf(),
                self.input@ == s,
                start <= self.position,
            ensures
                self.wf(),
                self.input@ == s,
                result@ == scan_string(s, start).0,
                self.position == scan_string(s, start).1,
            decreases self.input.len() - self.position,
        {
            let ghost p = self.position as nat;
            match self.current_char {
                None => {
                    assert(result@ =~= result@ + Seq::<char>::empty());
                    break;
                },
                Some(c) => {
                    if c == '"' {
                        // Closing quote
                        self.advance();
                        assert(result@ =~= result@ + Seq::<char>::empty());
                        break;
                    } else if c == '\\' {
                        // Escape sequence
                        self.advance();
                        match self.current_char {
                            Some(e) => {
                                if e == 'n' {
                                    push_char(&mut result, '\n');
                                } else if e == 't' {
                                    push_char(&mut result, '\t');
                                } else if e == 'r' {
                                    push_char(&mut result, '\r');
                                } else if e == '\\' {
                                    push_char(&mut result, '\\');
                                } else if e == '"' {
                                    push_char(&mut result, '"');
                                } else {
                                    // Unknown escape, keep the backslash and character
                                    push_char(&mut result, '\\');
                                    push_char(&mut result, e);
                                }
                                let ghost before = result@;
                                self.advance();
                                assert(result@ + scan_string(s, self.position as nat).0
                                    =~= scan_string(s, start).0);
                            },
                            None => {
                                push_char(&mut result, '\\');
                                assert(scan_string(s, p) == (seq!['\\'], p + 1));
                                assert(result@ =~= scan_string(s, start).0);
                                break;
                            },
                        }
                    } else {
                        push_char(&mut result, c);
                        self.advance();
                        assert(result@ + scan_string(s, self.position as nat).0
                            =~= scan_string(s, start).0);
                    }
                },
            }
        }
        Token::Text(result)
    }

    /// Advance over ASCII digits.
    fn skip_digits(&mut self)
        requires
            old(self).wf(),
        ensures
            final(self).wf(),
            final(self).input@ == old(self).input@,
            final(self).position == digits_end(old(self).input@, old(self).position as nat),
    {
        let ghost s = self.input@;
        let ghost start = self.position as nat;
        loop
            invariant
                self.wf(),
                self.input@ == s,
                digits_end(s, self.position as nat) == digits_end(s, start),
            ensures
                self.wf(),
                self.input@ == s,
                self.position == digits_end(s, start),
            decreases self.input.len() - self.position,
        {
            match self.current_char {
                Some(c) => {
                    if '0' <= c && c <= '9' {
                        self.advance();
                    } else {
                        break;
                    }
                },
                None => break,
            }
        }
    }

    /// Peek at the next character without consuming
    fn peek(&self) -> (c: Option<char>)
        requires
            self.wf(),
        ensures
            c == char_at(self.input@, (self.position + 1) as nat),
    {
        if self.position + 1 < self.input.len() {
            Some(self.input[self.position + 1])
        } else {
            None
        }
    }

    /// Read a numeric literal (integer or decimal); the token keeps its digits.
    fn read_number(&mut self) -> (t: Token)
        requires
            old(self).wf(),
        ensures
            final(self).wf(),
            final(self).input@ == old(self).input@,
            final(self).position == number_end(old(self).input@, old(self).position as nat),
            t@ == TokenOf::Number(old(self).input@.subrange(
                old(self).position as int,
                final(self).position as int,
            )),
    {
        let ghost s = self.input@;
        let start = self.position;
        proof {
            lemma_digits_end_bounds(s, start as nat);
        }
        // Read digits before decimal point
        self.skip_digits();
        // Check for decimal point
        let next_is_digit = match self.peek() {
            Some(d) => '0' <= d && d <= '9',
            None => false,
        };
        if self.current_char == Some('.') && next_is_digit {
            self.advance();
            // Read digits after decimal point
            self.skip_digits();
        }
        proof {
            lemma_digits_end_bounds(s, start as nat);
            lemma_digits_end_bounds(s, digits_end(s, start as nat) + 1);
        }
        Token::Number(chars_to_string(&self.input, start, self.position))
    }

    /// Advance over characters that may continue an identifier.
    fn skip_word(&mut self)
        requires
            old(self).wf(),
        ensures
            final(self).wf(),
            final(self).input@ == old(self).input@,
            final(self).position == ident_end(old(self).input@, old(self).position as nat),
    {
        let ghost s = self.input@;
        let ghost start = self.position as nat;
        loop
            invariant
                self.wf(),
                self.input@ == s,
                ident_end(s, self.position as nat) == ident_end(s, start),
            ensures
                self.wf(),
                self.input@ == s,
                self.position == ident_end(s, start),
            decreases self.input.len() - self.position,
        {
            match self.current_char {
                Some(c) => {
                    if alphabetic_char(c) || numeric_char(c) || c == '_' {
                        self.advance();
                    } else {
                        break;
                    }
                },
                None => break,
            }
        }
    }

    /// Whether `input[start..end]` spells `word`.
    fn matches_word(&self, start: usize, end: usize, word: &str) -> (r: bool)
        requires
            start <= end <= self.input.len(),
        ensures
            r == (self.input@.subrange(start as int, end as int) == word@),
    {
        let n = word.unicode_len();
        if end - start != n {
            proof {
                if self.input@.subrange(start as int, end as int) == word@ {
                    assert(self.input@.subrange(start as int, end as int).len() == word@.len());
                }
            }
            return false;
        }
        let mut i: usize = 0;
        while i < n
            invariant
                i <= n,
                n == word@.len(),
                end - start == n,
                start <= end <= self.input.len(),
                forall|k: int| 0 <= k < i ==> self.input@[start + k] == word@[k],
            decreases n - i,
        {
            if self.input[start + i] != word.get_char(i) {
                proof {
                    let sub = self.input@.subrange(start as int, end as int);
                    assert(sub[i as int] == self.input@[start + i]);
                }
                return false;
            }
            i += 1;
        }
        assert(self.input@.subrange(start as int, end as int) =~= word@);
        true
    }

    /// The token for the word `input[start..end]`.
    fn keyword_or_ident(&self, start: usize, end: usize) -> (t: Token)
        requires
            self.wf(),
            start <= end <= self.input.len(),
        ensures
            t@ == keyword_token(self.input@.subrange(start as int, end as int)),
    {
        if self.matches_word(start, end, "bind") {
            Token::Bind
        }
        else if self.matches_word(start, end, "weave") {
            Token::Weave
        }
        else if self.matches_word(start, end, "set") {
            Token::SetKeyword
        }
        else if self.matches_word(start, end, "to") {
            Token::To
        }
        else if self.matches_word(start, end, "as") {
            Token::As
        }
        else if self.matches_word(start, end, "should") {
            Token::Should
        }
        else if self.matches_word(start, end, "then") {
            Token::Then
        }
        else if self.matches_word(start, end, "end") {
            Token::End
        }
        else if self.matches_word(start, end, "otherwise") {
            Token::Otherwise
        }
        else if self.matches_word(start, end, "for") {
            Token::For
        }
        else if self.matches_word(start, end, "each") {
            Token::Each
        }
        else if self.matches_word(start, end, "in") {
            Token::In
        }
        else if self.matches_word(start, end, "range") {
            Token::Range
        }
        else if self.matches_word(start, end, "whilst") {
            Token::Whilst
        }
        else if self.matches_word(start, end, "break") {
            Token::Break
        }
        else if self.matches_word(start, end, "continue") {
            Token::Continue
        }
        else if self.matches_word(start, end, "chant") {
            Token::Chant
        }
        else if self.matches_word(start, end, "yield") {
            Token::Yield
        }
        else if self.matches_word(start, end, "form") {
            Token::Form
        }
        else if self.matches_word(start, end, "variant") {
            Token::Variant
        }
        else if self.matches_word(start, end, "seek") {
            Token::Seek
        }
        else if self.matches_word(start, end, "where") {
            Token::Where
        }
        else if self.matches_word(start, end, "by") {
            Token::By
        }
        else if self.matches_word(start, end, "filter") {
            Token::Filter
        }
        else if self.matches_word(start, end, "sort") {
            Token::Sort
        }
        else if self.matches_word(start, end, "take") {
            Token::Take
        }
        else if self.matches_word(start, end, "first") {
            Token::First
        }
        else if self.matches_word(start, end, "last") {
            Token::Last
        }
        else if self.matches_word(start, end, "attempt") {
            Token::Attempt
        }
        else if self.matches_word(start, end, "harmonize") {
            Token::Harmonize
        }
        else if self.matches_word(start, end, "on") {
            Token::On
        }
        else if self.matches_word(start, end, "match") {
            Token::Match
        }
        else if self.matches_word(start, end, "when") {
            Token::When
        }
        else if self.matches_word(start, end, "with") {
            Token::With
        }
        else if self.matches_word(start, end, "request") {
            Token::Request
        }
        else if self.matches_word(start, end, "justification") {
            Token::Justification
        }
        else if self.matches_word(start, end, "Triumph") {
            Token::Triumph
        }
        else if self.matches_word(start, end, "Mishap") {
            Token::Mishap
        }
        else if self.matches_word(start, end, "Present") {
            Token::Present
        }
        else if self.matches_word(start, end, "Absent") {
            Token::Absent
        }
        else if self.matches_word(start, end, "after") {
            Token::After
        }
        else if self.matches_word(start, end, "before") {
            Token::Before
        }
        else if self.matches_word(start, end, "descending") {
            Token::Descending
        }
        else if self.matches_word(start, end, "ascending") {
            Token::Ascending
        }
        else if self.matches_word(start, end, "true") {
            Token::Truth(true)
        }
        else if self.matches_word(start, end, "false") {
            Token::Truth(false)
        }
        else if self.matches_word(start, end, "nothing") {
            Token::Nothing
        }
        else if self.matches_word(start, end, "is") {
            Token::Is
        }
        else if self.matches_word(start, end, "and") {
            Token::And
        }
        else if self.matches_word(start, end, "or") {
            Token::Or
        }
        else if self.matches_word(start, end, "not") {
            Token::Not
        }
        else {
            Token::Ident(chars_to_string(&self.input, start, end))
        }
    }
    /// The two-word operator spelled by `input[s1..e1]` and `input[s2..e2]`, if any.
    fn two_word(&self, s1: usize, e1: usize, s2: usize, e2: usize) -> (r: Option<Token>)
        requires
            s1 <= e1 <= self.input.len(),
            s2 <= e2 <= self.input.len(),
        ensures
            match r {
                Some(t) => two_word_token(
                    self.input@.subrange(s1 as int, e1 as int),
                    self.input@.subrange(s2 as int, e2 as int),
                ) == Some(t@),
                None => two_word_token(
                    self.input@.subrange(s1 as int, e1 as int),
                    self.input@.subrange(s2 as int, e2 as int),
                ) is None,
            },
    {
        if self.matches_word(s1, e1, "is") && self.matches_word(s2, e2, "not") {
            Some(Token::IsNot)
        } else if self.matches_word(s1, e1, "greater") && self.matches_word(s2, e2, "than") {
            Some(Token::GreaterThan)
        } else if self.matches_word(s1, e1, "less") && self.matches_word(s2, e2, "than") {
            Some(Token::LessThan)
        } else if self.matches_word(s1, e1, "at") && self.matches_word(s2, e2, "least") {
            Some(Token::AtLeast)
        } else if self.matches_word(s1, e1, "at") && self.matches_word(s2, e2, "most") {
            Some(Token::AtMost)
        } else {
            None
        }
    }

    /// Read an identifier or keyword (including the two-word operators)
    fn read_identifier_or_keyword(&mut self) -> (t: Token)
        requires
            old(self).wf(),
        ensures
            final(self).wf(),
            final(self).input@ == old(self).input@,
            (t@, final(self).position as nat) == scan_word(old(self).input@, old(self).position as nat),
    {
        let ghost s = self.input@;
        let start = self.position;
        proof {
            lemma_ident_end_bounds(s, start as nat);
        }
        // Read alphanumeric characters and underscores
        self.skip_word();
        let end = self.position;

        // Check for two-word operators ("is not", "greater than", ...)
        let first_of_pair = self.matches_word(start, end, "is") || self.matches_word(start, end, "greater")
            || self.matches_word(start, end, "less") || self.matches_word(start, end, "at");
        let space_follows = match self.current_char {
            Some(c) => c == ' ',
            None => false,
        };
        if first_of_pair && space_follows {
            let saved_pos = self.position;
            let saved_char = self.current_char;
            let saved_line = self.line;
            let saved_col = self.column;

            self.skip_whitespace();
            proof {
                lemma_skip_blanks_bounds(s, end as nat);
            }
            let starts_word = match self.current_char {
                Some(c) => alphabetic_char(c),
                None => false,
            };
            if starts_word {
                let start2 = self.position;
                proof {
                    lemma_ident_end_bounds(s, start2 as nat);
                }
                self.skip_word();
                let end2 = self.position;
                match self.two_word(start, end, start2, end2) {
                    Some(t) => {
                        return t;
                    },
                    None => {},
                }
            }
            // Restore position if not a two-word operator
            self.position = saved_pos;
            self.current_char = saved_char;
            self.line = saved_line;
            self.column = saved_col;
        }
        proof {
            if !(first_of_pair) {
                let text = s.subrange(start as int, end as int);
                assert(text != "is"@ && text != "greater"@ && text != "less"@ && text != "at"@);
            }
        }
        self.keyword_or_ident(start, end)
    }

    /// Get the next token from the input
    pub fn next_token(&mut self) -> (t: Token)
        requires
            old(self).wf(),
        ensures
            final(self).wf(),
            final(self).source() == old(self).source(),
            (t@, final(self).pos()) == spec_next_token(old(self).source(), old(self).pos()),
        decreases old(self).source().len() - old(self).pos(),
    {
        let ghost s = self.input@;
        let ghost start = self.position as nat;
        proof {
            lemma_skip_blanks_bounds(s, start);
        }
        // Skip whitespace (but not newlines)
        self.skip_whitespace();
        let ghost k = self.position as nat;
        match self.current_char {
            None => Token::Eof,
            Some(c) => {
                if c == '\n' {
                    self.advance();
                    Token::Newline
                } else if c == '#' {
                    // Comment - skip to end of line, then take the next real token
                    proof {
                        lemma_comment_end_bounds(s, k);
                        lemma_comment_end_bounds(s, k + 1);
                    }
                    self.skip_comment();
                    let ghost j = self.position as nat;
                    proof {
                        lemma_skip_blanks_bounds(s, j);
                    }
                    self.next_token()
                } else if c == '"' {
                    self.read_string()
                } else if '0' <= c && c <= '9' {
                    self.read_number()
                } else if alphabetic_char(c) || c == '_' {
                    self.read_identifier_or_keyword()
                } else if c == '-' {
                    self.advance();
                    if self.current_char == Some('>') {
                        self.advance();
                        Token::Arrow
                    } else {
                        Token::Minus
                    }
                } else if c == '<' {
                    self.advance();
                    if self.current_char == Some('=') {
                        self.advance();
                        Token::AtMost
                    } else {
                        Token::LeftAngle
                    }
                } else if c == '>' {
                    self.advance();
                    if self.current_char == Some('=') {
                        self.advance();
                        Token::AtLeast
                    } else {
                        Token::RightAngle
                    }
                } else if c == '+' {
                    self.advance();
                    Token::Plus
                } else if c == '*' {
                    self.advance();
                    Token::Star
                } else if c == '/' {
                    self.advance();
                    Token::Slash
                } else if c == '%' {
                    self.advance();
                    Token::Percent
                } else if c == '|' {
                    self.advance();
                    Token::Pipe
                } else if c == '(' {
                    self.advance();
                    Token::LeftParen
                } else if c == ')' {
                    self.advance();
                    Token::RightParen
                } else if c == '[' {
                    self.advance();
                    Token::LeftBracket
                } else if c == ']' {
                    self.advance();
                    Token::RightBracket
                } else if c == '{' {
                    self.advance();
                    Token::LeftBrace
                } else if c == '}' {
                    self.advance();
                    Token::RightBrace
                } else if c == ',' {
                    self.advance();
                    Token::Comma
                } else if c == ':' {
                    self.advance();
                    Token::Colon
                } else if c == '.' {
                    self.advance();
                    Token::Dot
                } else if c == '?' {
                    self.advance();
                    Token::Question
                } else {
                    // Unknown character - skip it and try next
                    self.advance();
                    self.next_token()
                }
            },
        }
    }

    /// Tokenize entire input into a vector
    pub fn tokenize(&mut self) -> (tokens: Vec<Token>)
        requires
            old(self).wf(),
        ensures
            final(self).wf(),
            final(self).source() == old(self).source(),
            final(self).pos() == old(self).source().len(),
            tokens@.map_values(|t: Token| t@) == spec_tokenize(old(self).source(), old(self).pos()),
    {
        let ghost s = self.input@;
        let ghost start = self.position as nat;
        let mut tokens: Vec<Token> = Vec::new();
        loop
            invariant_except_break
                tokens@.map_values(|t: Token| t@) + spec_tokenize(s, self.position as nat)
                    == spec_tokenize(s, start),
            invariant
                self.wf(),
                self.input@ == s,
            ensures
                self.wf(),
                self.input@ == s,
                self.position == s.len(),
                tokens@.map_values(|t: Token| t@) == spec_tokenize(s, start),
            decreases self.input.len() - self.position,
        {
            let ghost p = self.position as nat;
            let ghost before = tokens@.map_values(|t: Token| t@);
            proof {
                lemma_next_token_progress(s, p);
            }
            let token = self.next_token();
            let is_eof = match token {
                Token::Eof => true,
                _ => false,
            };
            tokens.push(token);
            assert(tokens@.map_values(|t: Token| t@) =~= before.push(spec_next_token(s, p).0));
            if is_eof {
                assert(tokens@.map_values(|t: Token| t@) =~= before + spec_tokenize(s, p));
                break;
            }
            assert(before + spec_tokenize(s, p) =~= before.push(spec_next_token(s, p).0)
                + spec_tokenize(s, self.position as nat));
        }
        tokens
    }
}

} // verus!
