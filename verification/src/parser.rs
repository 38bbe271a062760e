//! Recursive-descent parsing of Glimmer-Weave tokens: the parser's
//! position over its token list, and type annotations.

use vstd::prelude::*;
use crate::ast::TypeAnnotation;
use crate::source_location::SourceSpan;
use crate::debug_text::{debug_str, str_debug_text};
use crate::text::push_str;
use crate::token::{PositionedToken, Span, Token, TokenOf, TokenView};

pub mod grammar;
pub mod expressions;
pub mod program;
pub mod statements;

verus! {

/// Parser for Glimmer-Weave source code
pub struct Parser {
    tokens: Vec<PositionedToken>,
    position: usize,
}

/// Parser error
#[derive(Debug, Clone)]
pub struct ParseError {
    pub message: String,
    pub position: usize,
}

/// The token at `i`, or `Eof` past the end.
pub open spec fn token_at(toks: Seq<TokenView>, i: int) -> TokenView {
    if 0 <= i < toks.len() {
        toks[i]
    } else {
        TokenOf::Eof
    }
}

/// The position after moving past the token at `pos` (none past the end).
pub open spec fn next_pos(toks: Seq<TokenView>, pos: int) -> int {
    if pos < toks.len() {
        pos + 1
    } else {
        pos
    }
}

/// Which kind of token this is, regardless of its payload.
#[verifier::opaque]
pub open spec fn kind_of(t: TokenView) -> nat {
    match t {
        TokenOf::Number(_) => 0,
        TokenOf::Text(_) => 1,
        TokenOf::Truth(_) => 2,
        TokenOf::Ident(_) => 3,
        TokenOf::Bind => 4,
        TokenOf::Weave => 5,
        TokenOf::SetKeyword => 6,
        TokenOf::To => 7,
        TokenOf::As => 8,
        TokenOf::Should => 9,
        TokenOf::Then => 10,
        TokenOf::End => 11,
        TokenOf::Otherwise => 12,
        TokenOf::For => 13,
        TokenOf::Each => 14,
        TokenOf::In => 15,
        TokenOf::Range => 16,
        TokenOf::Whilst => 17,
        TokenOf::Break => 18,
        TokenOf::Continue => 19,
        TokenOf::Chant => 20,
        TokenOf::Yield => 21,
        TokenOf::Form => 22,
        TokenOf::Variant => 23,
        TokenOf::Seek => 24,
        TokenOf::Where => 25,
        TokenOf::By => 26,
        TokenOf::Filter => 27,
        TokenOf::Sort => 28,
        TokenOf::Take => 29,
        TokenOf::First => 30,
        TokenOf::Last => 31,
        TokenOf::Attempt => 32,
        TokenOf::Harmonize => 33,
        TokenOf::On => 34,
        TokenOf::Match => 35,
        TokenOf::When => 36,
        TokenOf::With => 37,
        TokenOf::Request => 38,
        TokenOf::Justification => 39,
        TokenOf::Triumph => 40,
        TokenOf::Mishap => 41,
        TokenOf::Present => 42,
        TokenOf::Absent => 43,
        TokenOf::After => 44,
        TokenOf::Before => 45,
        TokenOf::Descending => 46,
        TokenOf::Ascending => 47,
        TokenOf::Grove => 79,
        TokenOf::Summon => 80,
        TokenOf::Gather => 81,
        TokenOf::Offer => 82,
        TokenOf::Aspect => 83,
        TokenOf::Embody => 84,
        TokenOf::From => 85,
        TokenOf::Nothing => 48,
        TokenOf::Is => 49,
        TokenOf::IsNot => 50,
        TokenOf::And => 51,
        TokenOf::Or => 52,
        TokenOf::Not => 53,
        TokenOf::GreaterThan => 54,
        TokenOf::LessThan => 55,
        TokenOf::AtLeast => 56,
        TokenOf::AtMost => 57,
        TokenOf::Plus => 58,
        TokenOf::Minus => 59,
        TokenOf::Star => 60,
        TokenOf::Slash => 61,
        TokenOf::Percent => 62,
        TokenOf::Arrow => 63,
        TokenOf::LeftAngle => 64,
        TokenOf::RightAngle => 65,
        TokenOf::Pipe => 66,
        TokenOf::LeftParen => 67,
        TokenOf::RightParen => 68,
        TokenOf::LeftBracket => 69,
        TokenOf::RightBracket => 70,
        TokenOf::LeftBrace => 71,
        TokenOf::RightBrace => 72,
        TokenOf::Comma => 73,
        TokenOf::Colon => 74,
        TokenOf::Dot => 75,
        TokenOf::Question => 76,
        TokenOf::Newline => 77,
        TokenOf::Eof => 78,
    }
}

/// Whether two tokens are of the same kind (their payloads may differ).
pub open spec fn same_kind(a: TokenView, b: TokenView) -> bool {
    kind_of(a) == kind_of(b)
}

/// A token that carries no text or value.
pub open spec fn payload_free(t: TokenView) -> bool {
    !(t is Number || t is Text || t is Truth || t is Ident)
}

/// A token is of the kind of a payload-free token exactly when it is that
/// token.
pub proof fn lemma_same_kind(a: TokenView, b: TokenView)
    requires
        payload_free(b),
    ensures
        same_kind(a, b) <==> a == b,
{
    reveal(kind_of);
}

fn kind_index(t: &Token) -> (k: u8)
    ensures
        k == kind_of(t@),
{
    proof {
        reveal(kind_of);
    }
    match t {
        TokenOf::Number(_) => 0,
        TokenOf::Text(_) => 1,
        TokenOf::Truth(_) => 2,
        TokenOf::Ident(_) => 3,
        TokenOf::Bind => 4,
        TokenOf::Weave => 5,
        TokenOf::SetKeyword => 6,
        TokenOf::To => 7,
        TokenOf::As => 8,
        TokenOf::Should => 9,
        TokenOf::Then => 10,
        TokenOf::End => 11,
        TokenOf::Otherwise => 12,
        TokenOf::For => 13,
        TokenOf::Each => 14,
        TokenOf::In => 15,
        TokenOf::Range => 16,
        TokenOf::Whilst => 17,
        TokenOf::Break => 18,
        TokenOf::Continue => 19,
        TokenOf::Chant => 20,
        TokenOf::Yield => 21,
        TokenOf::Form => 22,
        TokenOf::Variant => 23,
        TokenOf::Seek => 24,
        TokenOf::Where => 25,
        TokenOf::By => 26,
        TokenOf::Filter => 27,
        TokenOf::Sort => 28,
        TokenOf::Take => 29,
        TokenOf::First => 30,
        TokenOf::Last => 31,
        TokenOf::Attempt => 32,
        TokenOf::Harmonize => 33,
        TokenOf::On => 34,
        TokenOf::Match => 35,
        TokenOf::When => 36,
        TokenOf::With => 37,
        TokenOf::Request => 38,
        TokenOf::Justification => 39,
        TokenOf::Triumph => 40,
        TokenOf::Mishap => 41,
        TokenOf::Present => 42,
        TokenOf::Absent => 43,
        TokenOf::After => 44,
        TokenOf::Before => 45,
        TokenOf::Descending => 46,
        TokenOf::Ascending => 47,
        TokenOf::Grove => 79,
        TokenOf::Summon => 80,
        TokenOf::Gather => 81,
        TokenOf::Offer => 82,
        TokenOf::Aspect => 83,
        TokenOf::Embody => 84,
        TokenOf::From => 85,
        TokenOf::Nothing => 48,
        TokenOf::Is => 49,
        TokenOf::IsNot => 50,
        TokenOf::And => 51,
        TokenOf::Or => 52,
        TokenOf::Not => 53,
        TokenOf::GreaterThan => 54,
        TokenOf::LessThan => 55,
        TokenOf::AtLeast => 56,
        TokenOf::AtMost => 57,
        TokenOf::Plus => 58,
        TokenOf::Minus => 59,
        TokenOf::Star => 60,
        TokenOf::Slash => 61,
        TokenOf::Percent => 62,
        TokenOf::Arrow => 63,
        TokenOf::LeftAngle => 64,
        TokenOf::RightAngle => 65,
        TokenOf::Pipe => 66,
        TokenOf::LeftParen => 67,
        TokenOf::RightParen => 68,
        TokenOf::LeftBracket => 69,
        TokenOf::RightBracket => 70,
        TokenOf::LeftBrace => 71,
        TokenOf::RightBrace => 72,
        TokenOf::Comma => 73,
        TokenOf::Colon => 74,
        TokenOf::Dot => 75,
        TokenOf::Question => 76,
        TokenOf::Newline => 77,
        TokenOf::Eof => 78,
    }
}

/// How a token is shown in messages: its kind, and its payload in
/// parentheses (a number as written in the source, text quoted).
#[verifier::opaque]
pub open spec fn token_text(t: TokenView) -> Seq<char> {
    match t {
        TokenOf::Number(s) => "Number("@ + s + ")"@,
        TokenOf::Text(s) => "Text("@ + str_debug_text(s) + ")"@,
        TokenOf::Truth(b) => if b { "Truth(true)"@ } else { "Truth(false)"@ },
        TokenOf::Ident(s) => "Ident("@ + str_debug_text(s) + ")"@,
        TokenOf::Bind => "Bind"@,
        TokenOf::Weave => "Weave"@,
        TokenOf::SetKeyword => "Set"@,
        TokenOf::To => "To"@,
        TokenOf::As => "As"@,
        TokenOf::Should => "Should"@,
        TokenOf::Then => "Then"@,
        TokenOf::End => "End"@,
        TokenOf::Otherwise => "Otherwise"@,
        TokenOf::For => "For"@,
        TokenOf::Each => "Each"@,
        TokenOf::In => "In"@,
        TokenOf::Range => "Range"@,
        TokenOf::Whilst => "Whilst"@,
        TokenOf::Break => "Break"@,
        TokenOf::Continue => "Continue"@,
        TokenOf::Chant => "Chant"@,
        TokenOf::Yield => "Yield"@,
        TokenOf::Form => "Form"@,
        TokenOf::Variant => "Variant"@,
        TokenOf::Seek => "Seek"@,
        TokenOf::Where => "Where"@,
        TokenOf::By => "By"@,
        TokenOf::Filter => "Filter"@,
        TokenOf::Sort => "Sort"@,
        TokenOf::Take => "Take"@,
        TokenOf::First => "First"@,
        TokenOf::Last => "Last"@,
        TokenOf::Attempt => "Attempt"@,
        TokenOf::Harmonize => "Harmonize"@,
        TokenOf::On => "On"@,
        TokenOf::Match => "Match"@,
        TokenOf::When => "When"@,
        TokenOf::With => "With"@,
        TokenOf::Request => "Request"@,
        TokenOf::Justification => "Justification"@,
        TokenOf::Triumph => "Triumph"@,
        TokenOf::Mishap => "Mishap"@,
        TokenOf::Present => "Present"@,
        TokenOf::Absent => "Absent"@,
        TokenOf::After => "After"@,
        TokenOf::Before => "Before"@,
        TokenOf::Descending => "Descending"@,
        TokenOf::Ascending => "Ascending"@,
        TokenOf::Grove => "Grove"@,
        TokenOf::Summon => "Summon"@,
        TokenOf::Gather => "Gather"@,
        TokenOf::Offer => "Offer"@,
        TokenOf::Aspect => "Aspect"@,
        TokenOf::Embody => "Embody"@,
        TokenOf::From => "From"@,
        TokenOf::Nothing => "Nothing"@,
        TokenOf::Is => "Is"@,
        TokenOf::IsNot => "IsNot"@,
        TokenOf::And => "And"@,
        TokenOf::Or => "Or"@,
        TokenOf::Not => "Not"@,
        TokenOf::GreaterThan => "GreaterThan"@,
        TokenOf::LessThan => "LessThan"@,
        TokenOf::AtLeast => "AtLeast"@,
        TokenOf::AtMost => "AtMost"@,
        TokenOf::Plus => "Plus"@,
        TokenOf::Minus => "Minus"@,
        TokenOf::Star => "Star"@,
        TokenOf::Slash => "Slash"@,
        TokenOf::Percent => "Percent"@,
        TokenOf::Arrow => "Arrow"@,
        TokenOf::LeftAngle => "LeftAngle"@,
        TokenOf::RightAngle => "RightAngle"@,
        TokenOf::Pipe => "Pipe"@,
        TokenOf::LeftParen => "LeftParen"@,
        TokenOf::RightParen => "RightParen"@,
        TokenOf::LeftBracket => "LeftBracket"@,
        TokenOf::RightBracket => "RightBracket"@,
        TokenOf::LeftBrace => "LeftBrace"@,
        TokenOf::RightBrace => "RightBrace"@,
        TokenOf::Comma => "Comma"@,
        TokenOf::Colon => "Colon"@,
        TokenOf::Dot => "Dot"@,
        TokenOf::Question => "Question"@,
        TokenOf::Newline => "Newline"@,
        TokenOf::Eof => "Eof"@,
    }
}

/// How a token is shown in messages.
pub fn show_token(t: &Token) -> (r: String)
    ensures
        r@ == token_text(t@),
{
    proof {
        reveal(token_text);
    }
    match t {
        TokenOf::Number(s) => {
            let mut r = String::from_str("Number(");
            push_str(&mut r, s.as_str());
            push_str(&mut r, ")");
            r
        },
        TokenOf::Text(s) => {
            let mut r = String::from_str("Text(");
            push_str(&mut r, debug_str(s).as_str());
            push_str(&mut r, ")");
            r
        },
        TokenOf::Truth(b) => String::from_str(if *b { "Truth(true)" } else { "Truth(false)" }),
        TokenOf::Ident(s) => {
            let mut r = String::from_str("Ident(");
            push_str(&mut r, debug_str(s).as_str());
            push_str(&mut r, ")");
            r
        },
        TokenOf::Bind => String::from_str("Bind"),
        TokenOf::Weave => String::from_str("Weave"),
        TokenOf::SetKeyword => String::from_str("Set"),
        TokenOf::To => String::from_str("To"),
        TokenOf::As => String::from_str("As"),
        TokenOf::Should => String::from_str("Should"),
        TokenOf::Then => String::from_str("Then"),
        TokenOf::End => String::from_str("End"),
        TokenOf::Otherwise => String::from_str("Otherwise"),
        TokenOf::For => String::from_str("For"),
        TokenOf::Each => String::from_str("Each"),
        TokenOf::In => String::from_str("In"),
        TokenOf::Range => String::from_str("Range"),
        TokenOf::Whilst => String::from_str("Whilst"),
        TokenOf::Break => String::from_str("Break"),
        TokenOf::Continue => String::from_str("Continue"),
        TokenOf::Chant => String::from_str("Chant"),
        TokenOf::Yield => String::from_str("Yield"),
        TokenOf::Form => String::from_str("Form"),
        TokenOf::Variant => String::from_str("Variant"),
        TokenOf::Seek => String::from_str("Seek"),
        TokenOf::Where => String::from_str("Where"),
        TokenOf::By => String::from_str("By"),
        TokenOf::Filter => String::from_str("Filter"),
        TokenOf::Sort => String::from_str("Sort"),
        TokenOf::Take => String::from_str("Take"),
        TokenOf::First => String::from_str("First"),
        TokenOf::Last => String::from_str("Last"),
        TokenOf::Attempt => String::from_str("Attempt"),
        TokenOf::Harmonize => String::from_str("Harmonize"),
        TokenOf::On => String::from_str("On"),
        TokenOf::Match => String::from_str("Match"),
        TokenOf::When => String::from_str("When"),
        TokenOf::With => String::from_str("With"),
        TokenOf::Request => String::from_str("Request"),
        TokenOf::Justification => String::from_str("Justification"),
        TokenOf::Triumph => String::from_str("Triumph"),
        TokenOf::Mishap => String::from_str("Mishap"),
        TokenOf::Present => String::from_str("Present"),
        TokenOf::Absent => String::from_str("Absent"),
        TokenOf::After => String::from_str("After"),
        TokenOf::Before => String::from_str("Before"),
        TokenOf::Descending => String::from_str("Descending"),
        TokenOf::Ascending => String::from_str("Ascending"),
        TokenOf::Grove => String::from_str("Grove"),
        TokenOf::Summon => String::from_str("Summon"),
        TokenOf::Gather => String::from_str("Gather"),
        TokenOf::Offer => String::from_str("Offer"),
        TokenOf::Aspect => String::from_str("Aspect"),
        TokenOf::Embody => String::from_str("Embody"),
        TokenOf::From => String::from_str("From"),
        TokenOf::Nothing => String::from_str("Nothing"),
        TokenOf::Is => String::from_str("Is"),
        TokenOf::IsNot => String::from_str("IsNot"),
        TokenOf::And => String::from_str("And"),
        TokenOf::Or => String::from_str("Or"),
        TokenOf::Not => String::from_str("Not"),
        TokenOf::GreaterThan => String::from_str("GreaterThan"),
        TokenOf::LessThan => String::from_str("LessThan"),
        TokenOf::AtLeast => String::from_str("AtLeast"),
        TokenOf::AtMost => String::from_str("AtMost"),
        TokenOf::Plus => String::from_str("Plus"),
        TokenOf::Minus => String::from_str("Minus"),
        TokenOf::Star => String::from_str("Star"),
        TokenOf::Slash => String::from_str("Slash"),
        TokenOf::Percent => String::from_str("Percent"),
        TokenOf::Arrow => String::from_str("Arrow"),
        TokenOf::LeftAngle => String::from_str("LeftAngle"),
        TokenOf::RightAngle => String::from_str("RightAngle"),
        TokenOf::Pipe => String::from_str("Pipe"),
        TokenOf::LeftParen => String::from_str("LeftParen"),
        TokenOf::RightParen => String::from_str("RightParen"),
        TokenOf::LeftBracket => String::from_str("LeftBracket"),
        TokenOf::RightBracket => String::from_str("RightBracket"),
        TokenOf::LeftBrace => String::from_str("LeftBrace"),
        TokenOf::RightBrace => String::from_str("RightBrace"),
        TokenOf::Comma => String::from_str("Comma"),
        TokenOf::Colon => String::from_str("Colon"),
        TokenOf::Dot => String::from_str("Dot"),
        TokenOf::Question => String::from_str("Question"),
        TokenOf::Newline => String::from_str("Newline"),
        TokenOf::Eof => String::from_str("Eof"),
    }
}

/// The message for a token that was expected but not found.
#[verifier::opaque]
pub open spec fn expected_message(expected: TokenView, found: TokenView) -> Seq<char> {
    "Expected "@ + token_text(expected) + ", found "@ + token_text(found)
}

/// Type annotation as a mathematical value.
pub enum TypeView {
    Named(Seq<char>),
    Generic(Seq<char>),
    Parametrized { name: Seq<char>, type_args: Seq<TypeView> },
    List(Box<TypeView>),
    MapType,
    Function { param_types: Seq<TypeView>, return_type: Box<TypeView> },
    Optional(Box<TypeView>),
    Borrowed { lifetime: Option<Seq<char>>, inner: Box<TypeView>, mutable: bool },
}

/// The mathematical value of a type annotation.
pub open spec fn type_view(t: TypeAnnotation) -> TypeView
    decreases t, 1nat,
{
    match t {
        TypeAnnotation::Named(n) => TypeView::Named(n@),
        TypeAnnotation::Generic(n) => TypeView::Generic(n@),
        TypeAnnotation::Parametrized { name, type_args } => TypeView::Parametrized {
            name: name@,
            type_args: types_view(type_args@),
        },
        TypeAnnotation::List(inner) => TypeView::List(Box::new(type_view(*inner))),
        TypeAnnotation::MapType => TypeView::MapType,
        TypeAnnotation::Function { param_types, return_type } => TypeView::Function {
            param_types: types_view(param_types@),
            return_type: Box::new(type_view(*return_type)),
        },
        TypeAnnotation::Optional(inner) => TypeView::Optional(Box::new(type_view(*inner))),
        TypeAnnotation::Borrowed { lifetime, inner, mutable } => TypeView::Borrowed {
            lifetime: match lifetime {
                Some(l) => Some(l.name@),
                None => None,
            },
            inner: Box::new(type_view(*inner)),
            mutable,
        },
    }
}

/// The mathematical values of type annotations.
pub open spec fn types_view(ts: Seq<TypeAnnotation>) -> Seq<TypeView>
    decreases ts, 0nat,
{
    if ts.len() == 0 {
        Seq::empty()
    } else {
        types_view(ts.drop_last()).push(type_view(ts.last()))
    }
}

/// The views of type annotations, one for each, in order.
pub proof fn lemma_types_view(ts: Seq<TypeAnnotation>)
    ensures
        types_view(ts).len() == ts.len(),
        forall|i: int| 0 <= i < ts.len() ==> #[trigger] types_view(ts)[i] == type_view(ts[i]),
    decreases ts.len(),
{
    if ts.len() > 0 {
        lemma_types_view(ts.drop_last());
    }
}

/// A name that stands for a type parameter: one ASCII capital letter.
pub open spec fn is_type_parameter_name(name: Seq<char>) -> bool {
    name.len() == 1 && 'A' <= name[0] <= 'Z'
}

/// The source span of the token at `pos` (unknown past the end).
pub open spec fn span_at(spans: Seq<Span>, pos: int) -> SourceSpan {
    if 0 <= pos < spans.len() {
        SourceSpan {
            start: crate::source_location::SourceLocation { line: spans[pos].line, column: spans[pos].column },
            end: crate::source_location::SourceLocation { line: spans[pos].line, column: spans[pos].column },
        }
    } else {
        SourceSpan::spec_unknown()
    }
}

/// The first position at or after `pos` whose token is not a newline.
pub open spec fn skip_nl(toks: Seq<TokenView>, pos: int) -> int
    decreases toks.len() - pos,
{
    if token_at(toks, pos) is Newline {
        skip_nl(toks, pos + 1)
    } else {
        pos
    }
}

/// Skipping newlines stays at or after `pos`, and within the tokens.
pub proof fn lemma_skip_nl_bounds(toks: Seq<TokenView>, pos: int)
    ensures
        pos <= skip_nl(toks, pos),
        pos <= toks.len() ==> skip_nl(toks, pos) <= toks.len(),
    decreases toks.len() - pos,
{
    if token_at(toks, pos) is Newline {
        lemma_skip_nl_bounds(toks, pos + 1);
    }
}

proof fn lemma_skip_nl(toks: Seq<TokenView>, a: int, b: int)
    requires
        a <= b,
        forall|i: int| a <= i < b ==> #[trigger] token_at(toks, i) is Newline,
        !(token_at(toks, b) is Newline),
    ensures
        skip_nl(toks, a) == b,
    decreases b - a,
{
    if a < b {
        assert(token_at(toks, a) is Newline);
        lemma_skip_nl(toks, a + 1, b);
    }
}

/// A parse result: the value and the position after it, or an error
/// message and the position where it arose.
pub type Parsed<T> = Result<(T, int), (Seq<char>, int)>;

/// Parsing a type annotation at `pos`: a name, with type arguments in
/// angle brackets (`List<T>` with one argument is a list type); `Map`;
/// a type parameter (one capital letter); otherwise a named type.
pub open spec fn type_spec(toks: Seq<TokenView>, pos: int) -> Parsed<TypeView>
    decreases toks.len() - pos, 0nat,
{
    match token_at(toks, pos) {
        TokenOf::Ident(name) => {
            let p1 = pos + 1;
            if token_at(toks, p1) is LeftAngle {
                match type_args_spec(toks, p1 + 1) {
                    Err(e) => Err(e),
                    Ok((args, p2)) => if token_at(toks, p2) is RightAngle {
                        if name == "List"@ && args.len() == 1 {
                            Ok((TypeView::List(Box::new(args[0])), p2 + 1))
                        } else {
                            Ok((TypeView::Parametrized { name, type_args: args }, p2 + 1))
                        }
                    } else {
                        Err((expected_message(TokenOf::RightAngle, token_at(toks, p2)), p2))
                    },
                }
            } else if name == "Map"@ {
                Ok((TypeView::MapType, p1))
            } else if is_type_parameter_name(name) {
                Ok((TypeView::Generic(name), p1))
            } else {
                Ok((TypeView::Named(name), p1))
            }
        },
        _ => Err(("Expected type name"@, pos)),
    }
}

/// Parsing type arguments separated by commas.
pub open spec fn type_args_spec(toks: Seq<TokenView>, pos: int) -> Parsed<Seq<TypeView>>
    decreases toks.len() - pos, 1nat,
{
    match type_spec(toks, pos) {
        Err(e) => Err(e),
        Ok((t, p)) => if token_at(toks, p) is Comma && pos < p {
            match type_args_spec(toks, p + 1) {
                Err(e) => Err(e),
                Ok((rest, q)) => Ok((seq![t] + rest, q)),
            }
        } else {
            Ok((seq![t], p))
        },
    }
}

/// A successful parse moves forward: a type takes at least one token.
pub proof fn lemma_type_progress(toks: Seq<TokenView>, pos: int)
    ensures
        type_spec(toks, pos) matches Ok((_, p)) ==> pos < p <= toks.len() + 1,
        type_args_spec(toks, pos) matches Ok((_, p)) ==> pos < p <= toks.len() + 1,
    decreases toks.len() - pos,
{
    if token_at(toks, pos) is Ident && token_at(toks, pos + 1) is LeftAngle {
        lemma_type_progress(toks, pos + 2);
    }
    match type_spec(toks, pos) {
        Ok((_, p)) => if token_at(toks, p) is Comma && pos < p {
            lemma_type_progress(toks, p + 1);
        },
        _ => {},
    }
}

/// The tokens of positioned tokens.
pub open spec fn token_views(ts: Seq<PositionedToken>) -> Seq<TokenView> {
    ts.map_values(|t: PositionedToken| t.token@)
}

/// Where each of positioned tokens starts.
pub open spec fn token_spans(ts: Seq<PositionedToken>) -> Seq<Span> {
    ts.map_values(|t: PositionedToken| t.span)
}

impl Parser {
    /// The tokens being parsed.
    pub closed spec fn tokens(&self) -> Seq<TokenView> {
        self.tokens@.map_values(|t: PositionedToken| t.token@)
    }

    /// Where each token starts.
    pub closed spec fn spans(&self) -> Seq<Span> {
        self.tokens@.map_values(|t: PositionedToken| t.span)
    }

    /// Index of the current token.
    pub closed spec fn pos(&self) -> int {
        self.position as int
    }

    /// The position is within the token list or just past it.
    pub closed spec fn wf(&self) -> bool {
        self.position <= self.tokens@.len()
    }

    /// Create a new parser from a vector of positioned tokens
    pub fn new(tokens: Vec<PositionedToken>) -> (p: Parser)
        ensures
            p.wf(),
            p.tokens() == token_views(tokens@),
            p.spans() == token_spans(tokens@),
            p.pos() == 0,
    {
        let p = Parser { tokens, position: 0 };
        assert(p.tokens() =~= token_views(p.tokens@));
        assert(p.spans() =~= token_spans(p.tokens@));
        p
    }

    /// Get current token
    fn current(&self) -> (t: &Token)
        ensures
            t@ == token_at(self.tokens(), self.pos()),
    {
        if self.position < self.tokens.len() {
            &self.tokens[self.position].token
        } else {
            &TokenOf::Eof
        }
    }

    /// Get current token's span
    fn current_span(&self) -> (s: SourceSpan)
        ensures
            s == span_at(self.spans(), self.pos()),
    {
        if self.position < self.tokens.len() {
            self.tokens[self.position].span.to_source_span()
        } else {
            SourceSpan::unknown()
        }
    }

    /// Peek at next token
    fn peek(&self) -> (t: &Token)
        requires
            self.wf(),
        ensures
            t@ == token_at(self.tokens(), self.pos() + 1),
    {
        if self.position < self.tokens.len() && self.position + 1 < self.tokens.len() {
            &self.tokens[self.position + 1].token
        } else {
            &TokenOf::Eof
        }
    }

    /// Advance to next token (never past the end)
    fn advance(&mut self)
        requires
            old(self).wf(),
        ensures
            final(self).wf(),
            final(self).tokens() == old(self).tokens(),
            final(self).spans() == old(self).spans(),
            final(self).pos() == next_pos(old(self).tokens(), old(self).pos()),
    {
        if self.position < self.tokens.len() {
            self.position += 1;
        }
    }

    /// Skip newlines
    fn skip_newlines(&mut self)
        requires
            old(self).wf(),
        ensures
            final(self).wf(),
            final(self).tokens() == old(self).tokens(),
            final(self).spans() == old(self).spans(),
            old(self).pos() <= final(self).pos(),
            !(token_at(final(self).tokens(), final(self).pos()) is Newline),
            forall|i: int| old(self).pos() <= i < final(self).pos() ==> #[trigger] token_at(old(self).tokens(), i) is Newline,
            final(self).pos() == skip_nl(old(self).tokens(), old(self).pos()),
    {
        while self.check_kind(&TokenOf::Newline)
            invariant
                self.wf(),
                self.tokens() == old(self).tokens(),
                self.spans() == old(self).spans(),
                old(self).pos() <= self.pos(),
                forall|i: int| old(self).pos() <= i < self.pos() ==> #[trigger] token_at(old(self).tokens(), i) is Newline,
            decreases self.tokens@.len() - self.position,
        {
            self.advance();
        }
        proof {
            lemma_skip_nl(self.tokens(), old(self).pos(), self.pos());
        }
    }

    /// Whether the current token is of the kind of `expected`.
    fn check_kind(&self, expected: &Token) -> (r: bool)
        ensures
            r == same_kind(token_at(self.tokens(), self.pos()), expected@),
            payload_free(expected@) ==> (r <==> token_at(self.tokens(), self.pos()) == expected@),
    {
        proof {
            if payload_free(expected@) {
                lemma_same_kind(token_at(self.tokens(), self.pos()), expected@);
            }
        }
        kind_index(self.current()) == kind_index(expected)
    }

    /// Check if current token matches expected
    fn check(&self, expected: &Token) -> (r: bool)
        ensures
            r == same_kind(token_at(self.tokens(), self.pos()), expected@),
            payload_free(expected@) ==> (r <==> token_at(self.tokens(), self.pos()) == expected@),
    {
        self.check_kind(expected)
    }

    /// Consume token if it matches
    fn match_token(&mut self, expected: Token) -> (r: bool)
        requires
            old(self).wf(),
        ensures
            final(self).wf(),
            final(self).tokens() == old(self).tokens(),
            final(self).spans() == old(self).spans(),
            r == same_kind(token_at(old(self).tokens(), old(self).pos()), expected@),
            payload_free(expected@) ==> (r <==> token_at(old(self).tokens(), old(self).pos()) == expected@),
            final(self).pos() == if r { next_pos(old(self).tokens(), old(self).pos()) } else { old(self).pos() },
    {
        if self.check(&expected) {
            self.advance();
            true
        } else {
            false
        }
    }

    /// Expect a specific token
    fn expect(&mut self, expected: Token) -> (r: Result<(), ParseError>)
        requires
            old(self).wf(),
        ensures
            final(self).wf(),
            final(self).tokens() == old(self).tokens(),
            final(self).spans() == old(self).spans(),
            match r {
                Ok(()) => {
                    &&& same_kind(token_at(old(self).tokens(), old(self).pos()), expected@)
                    &&& payload_free(expected@) ==> token_at(old(self).tokens(), old(self).pos()) == expected@
                    &&& final(self).pos() == next_pos(old(self).tokens(), old(self).pos())
                },
                Err(e) => {
                    &&& !same_kind(token_at(old(self).tokens(), old(self).pos()), expected@)
                    &&& payload_free(expected@) ==> token_at(old(self).tokens(), old(self).pos()) != expected@
                    &&& e.message@ == expected_message(expected@, token_at(old(self).tokens(), old(self).pos()))
                    &&& e.position == old(self).pos()
                    &&& final(self).pos() == old(self).pos()
                },
            },
    {
        if self.check(&expected) {
            self.advance();
            Ok(())
        } else {
            proof {
                reveal(expected_message);
            }
            let mut message = String::from_str("Expected ");
            push_str(&mut message, show_token(&expected).as_str());
            push_str(&mut message, ", found ");
            push_str(&mut message, show_token(self.current()).as_str());
            Err(ParseError { message, position: self.position })
        }
    }

    /// Parse a type annotation (see `type_spec`).
    pub fn parse_type_annotation(&mut self) -> (r: Result<TypeAnnotation, ParseError>)
        requires
            old(self).wf(),
        ensures
            final(self).wf(),
            final(self).tokens() == old(self).tokens(),
            final(self).spans() == old(self).spans(),
            old(self).pos() <= final(self).pos(),
            match r {
                Ok(t) => type_spec(old(self).tokens(), old(self).pos()) == Ok::<(TypeView, int), (Seq<char>, int)>((type_view(t), final(self).pos())),
                Err(e) => type_spec(old(self).tokens(), old(self).pos()) == Err::<(TypeView, int), (Seq<char>, int)>((e.message@, e.position as int)),
            },
        decreases old(self).tokens().len() - old(self).pos(), 0nat,
    {
        let ghost toks = self.tokens();
        let ghost pos = self.pos();
        let name = match self.current() {
            TokenOf::Ident(ident) => ident.clone(),
            _ => {
                return Err(ParseError { message: String::from_str("Expected type name"), position: self.position });
            },
        };
        self.advance();
        if self.check(&TokenOf::LeftAngle) {
            self.advance();
            let type_args = match self.parse_type_args() {
                Err(e) => return Err(e),
                Ok(a) => a,
            };
            match self.expect(TokenOf::RightAngle) {
                Err(e) => return Err(e),
                Ok(()) => {},
            }
            proof {
                reveal_strlit("List");
            }
            if name == String::from_str("List") && type_args.len() == 1 {
                let ghost old_args = type_args@;
                let mut type_args = type_args;
                let first = type_args.remove(0);
                proof {
                    lemma_types_view(old_args);
                    assert(type_view(TypeAnnotation::List(Box::new(first))) == TypeView::List(
                        Box::new(types_view(old_args)[0]),
                    ));
                    assert(type_spec(toks, pos) == Ok::<(TypeView, int), (Seq<char>, int)>((
                        TypeView::List(Box::new(types_view(old_args)[0])),
                        self.pos(),
                    )));
                }
                Ok(TypeAnnotation::List(Box::new(first)))
            } else {
                proof {
                    lemma_types_view(type_args@);
                    assert(type_spec(toks, pos) == Ok::<(TypeView, int), (Seq<char>, int)>((
                        TypeView::Parametrized { name: name@, type_args: types_view(type_args@) },
                        self.pos(),
                    )));
                }
                Ok(TypeAnnotation::Parametrized { name, type_args })
            }
        } else if name == String::from_str("Map") {
            Ok(TypeAnnotation::MapType)
        } else {
            let generic = name.as_str().unicode_len() == 1 && is_capital(name.as_str().get_char(0));
            assert(generic == is_type_parameter_name(name@));
            if generic {
                Ok(TypeAnnotation::Generic(name))
            } else {
                Ok(TypeAnnotation::Named(name))
            }
        }
    }

    /// Parse type arguments separated by commas (see `type_args_spec`).
    fn parse_type_args(&mut self) -> (r: Result<Vec<TypeAnnotation>, ParseError>)
        requires
            old(self).wf(),
        ensures
            final(self).wf(),
            final(self).tokens() == old(self).tokens(),
            final(self).spans() == old(self).spans(),
            old(self).pos() <= final(self).pos(),
            match r {
                Ok(ts) => type_args_spec(old(self).tokens(), old(self).pos()) == Ok::<(Seq<TypeView>, int), (Seq<char>, int)>((types_view(ts@), final(self).pos())),
                Err(e) => type_args_spec(old(self).tokens(), old(self).pos()) == Err::<(Seq<TypeView>, int), (Seq<char>, int)>((e.message@, e.position as int)),
            },
        decreases old(self).tokens().len() - old(self).pos(), 1nat,
    {
        let ghost toks = self.tokens();
        let ghost start = self.pos();
        let mut type_args: Vec<TypeAnnotation> = Vec::new();
        loop
            invariant
                self.wf(),
                self.tokens() == toks,
                self.spans() == old(self).spans(),
                toks == old(self).tokens(),
                start == old(self).pos(),
                start <= self.pos(),
                type_args@.len() == 0 ==> self.pos() == start,
                type_args_spec(toks, start) == (match type_args_spec(toks, self.pos()) {
                    Ok((rest, q)) => Ok((types_view(type_args@) + rest, q)),
                    Err(e) => Err(e),
                }),
            decreases self.tokens@.len() - self.position,
        {
            let ghost here = self.pos();
            proof {
                lemma_type_progress(toks, here);
            }
            let t = match self.parse_type_annotation() {
                Err(e) => return Err(e),
                Ok(t) => t,
            };
            let ghost before = types_view(type_args@);
            let ghost old_args = type_args@;
            type_args.push(t);
            proof {
                assert(type_args@.drop_last() =~= old_args);
                assert(types_view(type_args@) == before.push(type_view(t)));
            }
            if self.check(&TokenOf::Comma) {
                self.advance();
                proof {
                    assert(before.push(type_view(t)) =~= before + seq![type_view(t)]);
                    match type_args_spec(toks, self.pos()) {
                        Ok((rest, q)) => {
                            assert(types_view(type_args@) + rest =~= before + (seq![type_view(t)] + rest));
                        },
                        Err(e) => {},
                    }
                }
            } else {
                proof {
                    assert(types_view(type_args@) =~= before + seq![type_view(t)]);
                }
                return Ok(type_args);
            }
        }
    }
}

/// Whether a character is an ASCII capital letter.
fn is_capital(c: char) -> (r: bool)
    ensures
        r == ('A' <= c <= 'Z'),
{
    'A' <= c && c <= 'Z'
}

} // verus!
