//! Input handling for the interactive shell: deciding whether what was typed
//! so far still needs more lines before it can be run, and what the shell
//! does with each line, key press or evaluation result.

use vstd::prelude::*;
use crate::text::{chars_to_string, push_char, push_str, spec_decimal, str_to_chars, usize_to_string};

verus! {

/// Unicode `White_Space` characters, which `char::is_whitespace` tests for.
pub open spec fn is_white(c: char) -> bool {
    ||| '\u{9}' <= c <= '\u{d}'
    ||| c == ' '
    ||| c == '\u{85}'
    ||| c == '\u{a0}'
    ||| c == '\u{1680}'
    ||| '\u{2000}' <= c <= '\u{200a}'
    ||| c == '\u{2028}'
    ||| c == '\u{2029}'
    ||| c == '\u{202f}'
    ||| c == '\u{205f}'
    ||| c == '\u{3000}'
}

fn is_whitespace(c: char) -> (r: bool)
    ensures
        r == is_white(c),
{
    ('\u{9}' <= c && c <= '\u{d}') || c == ' ' || c == '\u{85}' || c == '\u{a0}' || c == '\u{1680}' || (
    '\u{2000}' <= c && c <= '\u{200a}') || c == '\u{2028}' || c == '\u{2029}' || c == '\u{202f}' || c
        == '\u{205f}' || c == '\u{3000}'
}

/// `s` without leading white space.
pub open spec fn trim_start(s: Seq<char>) -> Seq<char>
    decreases s.len(),
{
    if s.len() > 0 && is_white(s[0]) {
        trim_start(s.drop_first())
    } else {
        s
    }
}

/// `s` without trailing white space.
pub open spec fn trim_end(s: Seq<char>) -> Seq<char>
    decreases s.len(),
{
    if s.len() > 0 && is_white(s.last()) {
        trim_end(s.drop_last())
    } else {
        s
    }
}

/// `s` without leading and trailing white space (`str::trim`).
pub open spec fn trim(s: Seq<char>) -> Seq<char> {
    trim_end(trim_start(s))
}

/// The pieces of `s` between line feeds, in order; there is always at
/// least one, and a text ending in a line feed has an empty last piece.
pub open spec fn lines_of(s: Seq<char>) -> Seq<Seq<char>>
    decreases s.len(),
{
    if s.len() == 0 {
        seq![Seq::empty()]
    } else {
        let prev = lines_of(s.drop_last());
        if s.last() == '\n' {
            prev.push(Seq::empty())
        } else {
            prev.update(prev.len() - 1, prev.last().push(s.last()))
        }
    }
}

/// A trimmed line that opens a block closed by `end`.
pub open spec fn opens_block(line: Seq<char>) -> bool {
    ||| "chant "@.is_prefix_of(line)
    ||| "should "@.is_prefix_of(line)
    ||| "whilst "@.is_prefix_of(line)
    ||| "for each "@.is_prefix_of(line)
    ||| "match "@.is_prefix_of(line)
    ||| "attempt "@.is_prefix_of(line)
    ||| "form "@.is_prefix_of(line)
}

/// A trimmed line that closes a block.
pub open spec fn closes_block(line: Seq<char>) -> bool {
    line == "end"@ || "end "@.is_prefix_of(line)
}

/// How a line changes the number of open blocks.
pub open spec fn block_delta(line: Seq<char>) -> int {
    (if opens_block(trim(line)) { 1int } else { 0int }) - (if closes_block(trim(line)) { 1int } else { 0int })
}

/// Blocks opened and not closed over the lines.
pub open spec fn block_depth(lines: Seq<Seq<char>>) -> int
    decreases lines.len(),
{
    if lines.len() == 0 {
        0
    } else {
        block_depth(lines.drop_last()) + block_delta(lines.last())
    }
}

/// Input that ends with a word that needs a continuation.
pub open spec fn ends_open(s: Seq<char>) -> bool {
    ||| " then"@.is_suffix_of(trim(s))
    ||| " otherwise"@.is_suffix_of(trim(s))
    ||| " with"@.is_suffix_of(trim(s))
    ||| " when"@.is_suffix_of(trim(s))
}

proof fn lemma_lines_of_nonempty(s: Seq<char>)
    ensures
        lines_of(s).len() >= 1,
    decreases s.len(),
{
    if s.len() > 0 {
        lemma_lines_of_nonempty(s.drop_last());
    }
}

proof fn lemma_trim_start_skip(s: Seq<char>, a: int)
    requires
        0 <= a < s.len(),
        is_white(s[a]),
    ensures
        trim_start(s.subrange(a, s.len() as int)) == trim_start(s.subrange(a + 1, s.len() as int)),
{
    assert(s.subrange(a, s.len() as int).drop_first() =~= s.subrange(a + 1, s.len() as int));
}

proof fn lemma_trim_end_skip(s: Seq<char>, a: int, b: int)
    requires
        0 <= a < b <= s.len(),
        is_white(s[b - 1]),
    ensures
        trim_end(s.subrange(a, b)) == trim_end(s.subrange(a, b - 1)),
{
    assert(s.subrange(a, b).drop_last() =~= s.subrange(a, b - 1));
}

/// Bounds of the trimmed part of `v[start..end]`.
fn trim_range(v: &Vec<char>, start: usize, end: usize) -> (r: (usize, usize))
    requires
        start <= end <= v.len(),
    ensures
        start <= r.0 <= r.1 <= end,
        v@.subrange(r.0 as int, r.1 as int) == trim(v@.subrange(start as int, end as int)),
{
    let ghost s = v@.subrange(start as int, end as int);
    let mut a = start;
    while a < end && is_whitespace(v[a])
        invariant
            start <= a <= end <= v.len(),
            trim_start(s) == trim_start(v@.subrange(a as int, end as int)),
        decreases end - a,
    {
        proof {
            lemma_trim_start_skip(v@.subrange(0, end as int), a as int);
            assert(v@.subrange(0, end as int).subrange(a as int, end as int) =~= v@.subrange(a as int, end as int));
            assert(v@.subrange(0, end as int).subrange(a + 1, end as int) =~= v@.subrange(a + 1, end as int));
        }
        a += 1;
    }
    assert(s =~= v@.subrange(start as int, end as int));
    assert(trim_start(v@.subrange(a as int, end as int)) == v@.subrange(a as int, end as int));
    let mut b = end;
    while b > a && is_whitespace(v[b - 1])
        invariant
            start <= a <= b <= end <= v.len(),
            trim(s) == trim_end(v@.subrange(a as int, b as int)),
        decreases b - a,
    {
        proof {
            lemma_trim_end_skip(v@, a as int, b as int);
        }
        b -= 1;
    }
    (a, b)
}

/// Whether `v[a..b]` begins with `p`.
fn range_starts_with(v: &Vec<char>, a: usize, b: usize, p: &str) -> (r: bool)
    requires
        a <= b <= v.len(),
    ensures
        r == p@.is_prefix_of(v@.subrange(a as int, b as int)),
{
    let pv = str_to_chars(p);
    if pv.len() > b - a {
        return false;
    }
    let mut i: usize = 0;
    while i < pv.len()
        invariant
            i <= pv@.len() <= b - a,
            a <= b <= v.len(),
            pv@ == p@,
            forall|j: int| 0 <= j < i ==> pv@[j] == v@[a + j],
        decreases pv@.len() - i,
    {
        if pv[i] != v[a + i] {
            assert(v@.subrange(a as int, b as int)[i as int] == v@[a + i]);
            return false;
        }
        i += 1;
    }
    assert(p@ =~= v@.subrange(a as int, b as int).subrange(0, p@.len() as int));
    true
}

/// Whether `v[a..b]` ends with `p`.
fn range_ends_with(v: &Vec<char>, a: usize, b: usize, p: &str) -> (r: bool)
    requires
        a <= b <= v.len(),
    ensures
        r == p@.is_suffix_of(v@.subrange(a as int, b as int)),
{
    let pv = str_to_chars(p);
    if pv.len() > b - a {
        return false;
    }
    let start = b - pv.len();
    let mut i: usize = 0;
    while i < pv.len()
        invariant
            i <= pv@.len() <= b - a,
            start == b - pv@.len(),
            a <= b <= v.len(),
            pv@ == p@,
            forall|j: int| 0 <= j < i ==> pv@[j] == v@[start + j],
        decreases pv@.len() - i,
    {
        if pv[i] != v[start + i] {
            assert(v@.subrange(a as int, b as int)[(start - a) + i] == v@[start + i]);
            return false;
        }
        i += 1;
    }
    assert(p@ =~= v@.subrange(a as int, b as int).subrange((b - a) - p@.len(), (b - a) as int));
    true
}

/// Whether `v[a..b]` is exactly `p`.
fn range_equals(v: &Vec<char>, a: usize, b: usize, p: &str) -> (r: bool)
    requires
        a <= b <= v.len(),
    ensures
        r == (v@.subrange(a as int, b as int) == p@),
{
    let pv = str_to_chars(p);
    if pv.len() != b - a {
        proof {
            if v@.subrange(a as int, b as int) == p@ {
                assert(false);
            }
        }
        return false;
    }
    let r = range_starts_with(v, a, b, p);
    proof {
        if r {
            assert(v@.subrange(a as int, b as int) =~= v@.subrange(a as int, b as int).subrange(0, p@.len() as int));
        }
    }
    r
}

/// The block counts of the trimmed line `v[a..b]`: (opens, closes).
fn line_counts(v: &Vec<char>, a: usize, b: usize) -> (r: (bool, bool))
    requires
        a <= b <= v.len(),
    ensures
        r.0 == opens_block(v@.subrange(a as int, b as int)),
        r.1 == closes_block(v@.subrange(a as int, b as int)),
        r.0 ==> b - a >= 5,
        r.1 ==> b - a >= 3,
{
    proof {
        reveal_strlit("chant ");
        reveal_strlit("should ");
        reveal_strlit("whilst ");
        reveal_strlit("for each ");
        reveal_strlit("match ");
        reveal_strlit("attempt ");
        reveal_strlit("form ");
        reveal_strlit("end");
        reveal_strlit("end ");
    }
    let opens = range_starts_with(v, a, b, "chant ") || range_starts_with(v, a, b, "should ")
        || range_starts_with(v, a, b, "whilst ") || range_starts_with(v, a, b, "for each ")
        || range_starts_with(v, a, b, "match ") || range_starts_with(v, a, b, "attempt ")
        || range_starts_with(v, a, b, "form ");
    let closes = range_equals(v, a, b, "end") || range_starts_with(v, a, b, "end ");
    (opens, closes)
}

/// Check if the input looks incomplete (heuristic): some line opens a block
/// (`chant`, `should`, `whilst`, `for each`, `match`, `attempt`, `form`)
/// that no `end` line closes, or the input ends with `then`, `otherwise`,
/// `with` or `when`.
pub fn is_incomplete(source: &str) -> (r: bool)
    ensures
        r == (block_depth(lines_of(source@)) > 0 || ends_open(source@)),
{
    let v = str_to_chars(source);
    let ghost s = v@;
    let mut opens: usize = 0;
    let mut closes: usize = 0;
    let mut line_start: usize = 0;
    let mut i: usize = 0;
    proof {
        assert(s.take(0) =~= Seq::<char>::empty());
        assert(s.subrange(0, 0) =~= Seq::<char>::empty());
    }
    while i < v.len()
        invariant
            s == v@,
            line_start <= i <= v@.len(),
            opens + closes <= line_start,
            lines_of(s.take(i as int)).len() >= 1,
            block_depth(lines_of(s.take(i as int)).drop_last()) == opens - closes,
            lines_of(s.take(i as int)).last() == s.subrange(line_start as int, i as int),
        decreases v@.len() - i,
    {
        let ghost prev = lines_of(s.take(i as int));
        assert(s.take(i + 1).drop_last() =~= s.take(i as int));
        if v[i] == '\n' {
            let (a, b) = trim_range(&v, line_start, i);
            let (o, c) = line_counts(&v, a, b);
            if o {
                opens += 1;
            }
            if c {
                closes += 1;
            }
            line_start = i + 1;
            i += 1;
            proof {
                assert(lines_of(s.take(i as int)) == prev.push(Seq::<char>::empty()));
                assert(lines_of(s.take(i as int)).drop_last() =~= prev);
                assert(s.subrange(line_start as int, i as int) =~= Seq::<char>::empty());
            }
        } else {
            i += 1;
            proof {
                lemma_lines_of_nonempty(s.take(i - 1));
                assert(lines_of(s.take(i as int)).drop_last() =~= prev.drop_last());
                assert(s.subrange(line_start as int, i as int) =~= s.subrange(line_start as int, i - 1).push(
                    s[i - 1],
                ));
            }
        }
    }
    let (a, b) = trim_range(&v, line_start, v.len());
    let (o, c) = line_counts(&v, a, b);
    let ghost lines = lines_of(s);
    proof {
        assert(s.take(i as int) =~= s);
        assert(lines =~= lines.drop_last().push(lines.last()));
    }
    let total_opens: usize = if o { opens + 1 } else { opens };
    let total_closes: usize = if c { closes + 1 } else { closes };
    if total_opens > total_closes {
        return true;
    }
    let (ta, tb) = trim_range(&v, 0, v.len());
    proof {
        assert(v@.subrange(0, v@.len() as int) =~= s);
    }
    range_ends_with(&v, ta, tb, " then") || range_ends_with(&v, ta, tb, " otherwise")
        || range_ends_with(&v, ta, tb, " with") || range_ends_with(&v, ta, tb, " when")
}

/// Whether `p` occurs in `s`.
pub open spec fn has_infix(s: Seq<char>, p: Seq<char>) -> bool {
    exists|i: int| 0 <= i && i + p.len() <= s.len() && #[trigger] s.subrange(i, i + p.len()) == p
}

/// Whether `p` occurs in `s`.
fn contains(s: &str, p: &str) -> (r: bool)
    ensures
        r == has_infix(s@, p@),
{
    let v = str_to_chars(s);
    let m = p.unicode_len();
    if m > v.len() {
        return false;
    }
    let last = v.len() - m;
    let mut i: usize = 0;
    loop
        invariant
            v@ == s@,
            m == p@.len(),
            m <= v@.len(),
            v@.len() == v.len(),
            last == v@.len() - m,
            i <= last,
            forall|j: int| 0 <= j < i ==> #[trigger] v@.subrange(j, j + m) != p@,
        decreases last - i,
    {
        if range_equals(&v, i, i + m, p) {
            return true;
        }
        if i == last {
            proof {
                assert forall|j: int| 0 <= j && j + p@.len() <= s@.len() implies #[trigger] s@.subrange(
                    j,
                    j + p@.len(),
                ) != p@ by {
                    assert(j <= i);
                }
            }
            return false;
        }
        i += 1;
    }
}

/// Whether a parse error of `source`, with message `message`, means that
/// more input is needed: the message speaks of an unexpected end or of an
/// expected token, or the input ends with `then` or `otherwise`.
pub fn parse_error_is_incomplete(message: &str, source: &str) -> (r: bool)
    ensures
        r == (has_infix(message@, "Unexpected end of input"@) || has_infix(message@, "Expected"@) || "then"@.is_suffix_of(
            trim(source@),
        ) || "otherwise"@.is_suffix_of(trim(source@))),
{
    if contains(message, "Unexpected end of input") || contains(message, "Expected") {
        return true;
    }
    let v = str_to_chars(source);
    let (a, b) = trim_range(&v, 0, v.len());
    proof {
        assert(v@.subrange(0, v@.len() as int) =~= source@);
    }
    range_ends_with(&v, a, b, "then") || range_ends_with(&v, a, b, "otherwise")
}

/// What the shell reads next.
pub enum ReplEvent {
    /// A line of input.
    Line(String),
    /// Ctrl+C.
    Interrupted,
    /// Ctrl+D.
    Eof,
    /// Reading failed; the text describes the failure.
    Failed(String),
}

/// How running the buffered source went.
pub enum EvalOutcome {
    /// It ran; the text shows its value.
    Value(String),
    /// It needs more lines.
    Incomplete,
    /// It did not parse; the text is the parse error.
    ParseError(String),
    /// It failed while running; the text is the runtime error.
    RuntimeError(String),
}

/// What the shell does next.
pub enum ReplAction {
    /// Print these lines and read on.
    Show(Vec<String>),
    /// Print the help text and read on.
    Help,
    /// Clear the screen and read on.
    ClearScreen,
    /// Start over with a fresh evaluator, print these lines and read on.
    Reset(Vec<String>),
    /// Record `line` in the history and run `source`, the buffered input.
    Run { line: String, source: String },
    /// Print these lines and stop.
    Exit(Vec<String>),
}

/// A shell action as a mathematical value.
pub enum ActionView {
    Show(Seq<Seq<char>>),
    Help,
    ClearScreen,
    Reset(Seq<Seq<char>>),
    Run { line: Seq<char>, source: Seq<char> },
    Exit(Seq<Seq<char>>),
}

/// Views of a list of texts.
pub open spec fn lines_view(v: Seq<String>) -> Seq<Seq<char>> {
    v.map_values(|s: String| s@)
}

impl View for ReplAction {
    type V = ActionView;

    open spec fn view(&self) -> ActionView {
        match self {
            ReplAction::Show(v) => ActionView::Show(lines_view(v@)),
            ReplAction::Help => ActionView::Help,
            ReplAction::ClearScreen => ActionView::ClearScreen,
            ReplAction::Reset(v) => ActionView::Reset(lines_view(v@)),
            ReplAction::Run { line, source } => ActionView::Run { line: line@, source: source@ },
            ReplAction::Exit(v) => ActionView::Exit(lines_view(v@)),
        }
    }
}

/// The action for a command line `t` (trimmed, starting with `:`).
pub open spec fn command_action(t: Seq<char>) -> ActionView {
    if t == ":quit"@ || t == ":exit"@ {
        ActionView::Exit(seq!["Goodbye!"@])
    } else if t == ":help"@ {
        ActionView::Help
    } else if t == ":clear"@ {
        ActionView::ClearScreen
    } else if t == ":env"@ {
        ActionView::Show(seq!["Environment variables:"@, "  (environment inspection not yet implemented)"@])
    } else if t == ":reset"@ {
        ActionView::Reset(seq!["Environment reset."@])
    } else {
        ActionView::Show(seq!["Unknown command: "@ + t, "Type :help for available commands."@])
    }
}

/// The buffer with a line break after it, unless it is empty.
pub open spec fn continued(buffer: Seq<char>) -> Seq<char> {
    if buffer.len() > 0 {
        buffer.push('\n')
    } else {
        buffer
    }
}

/// The buffer and action after reading `line`: a blank line keeps
/// multi-line input open; a line starting with `:` is a command; any other
/// line joins the buffer, which is then run.
pub open spec fn line_step(buffer: Seq<char>, line: Seq<char>) -> (Seq<char>, ActionView) {
    let t = trim(line);
    if t.len() == 0 {
        (continued(buffer), ActionView::Show(Seq::empty()))
    } else if t[0] == ':' {
        (buffer, command_action(t))
    } else {
        (continued(buffer) + line, ActionView::Run { line, source: continued(buffer) + line })
    }
}

/// The state of the interactive shell between inputs.
pub struct ReplState {
    /// Input read so far that has not been run yet
    pub buffer: String,
    /// Number shown in the prompt; counts successful evaluations from 1
    pub line_number: usize,
}

impl ReplState {
    /// The state at start: nothing buffered, at line 1.
    pub fn new() -> (r: ReplState)
        ensures
            r.buffer@ == Seq::<char>::empty(),
            r.line_number == 1,
    {
        ReplState { buffer: String::new(), line_number: 1 }
    }

    /// The prompt: the line number, or a continuation mark while input is
    /// buffered.
    pub fn prompt(&self) -> (r: String)
        ensures
            r@ == if self.buffer@.len() == 0 {
                "glimmer["@ + spec_decimal(self.line_number as nat) + "]> "@
            } else {
                "       ...> "@
            },
    {
        if self.buffer.as_str().unicode_len() == 0 {
            let mut r = String::from_str("glimmer[");
            push_str(&mut r, usize_to_string(self.line_number).as_str());
            push_str(&mut r, "]> ");
            r
        } else {
            String::from_str("       ...> ")
        }
    }

    /// Decide what to do with an input event (see `line_step`): Ctrl+C
    /// drops buffered input, or tells how to leave when there is none;
    /// Ctrl+D and read failures end the session.
    pub fn on_event(&mut self, event: ReplEvent) -> (a: ReplAction)
        ensures
            final(self).line_number == old(self).line_number,
            match event {
                ReplEvent::Line(l) => (final(self).buffer@, a@) == line_step(old(self).buffer@, l@),
                ReplEvent::Interrupted => if old(self).buffer@.len() > 0 {
                    &&& final(self).buffer@ == Seq::<char>::empty()
                    &&& a@ == ActionView::Show(seq!["^C"@])
                } else {
                    &&& final(self).buffer@ == old(self).buffer@
                    &&& a@ == ActionView::Show(seq!["(To exit, press Ctrl+D or type :quit)"@])
                },
                ReplEvent::Eof => final(self).buffer@ == old(self).buffer@ && a@ == ActionView::Exit(
                    seq!["Goodbye!"@],
                ),
                ReplEvent::Failed(e) => final(self).buffer@ == old(self).buffer@ && a@ == ActionView::Exit(
                    seq!["Error: "@ + e@],
                ),
            },
    {
        match event {
            ReplEvent::Line(line) => self.on_line(line),
            ReplEvent::Interrupted => {
                if self.buffer.as_str().unicode_len() > 0 {
                    self.buffer = String::new();
                    let out = vec![String::from_str("^C")];
                    proof {
                        assert(lines_view(out@) =~= seq!["^C"@]);
                    }
                    show(out)
                } else {
                    let out = vec![String::from_str("(To exit, press Ctrl+D or type :quit)")];
                    proof {
                        assert(lines_view(out@) =~= seq!["(To exit, press Ctrl+D or type :quit)"@]);
                    }
                    show(out)
                }
            },
            ReplEvent::Eof => {
                let out = vec![String::from_str("Goodbye!")];
                proof {
                    assert(lines_view(out@) =~= seq!["Goodbye!"@]);
                }
                exit(out)
            },
            ReplEvent::Failed(e) => {
                let mut m = String::from_str("Error: ");
                push_str(&mut m, e.as_str());
                let out = vec![m];
                proof {
                    assert(lines_view(out@) =~= seq![m@]);
                }
                exit(out)
            },
        }
    }

    fn on_line(&mut self, line: String) -> (a: ReplAction)
        ensures
            final(self).line_number == old(self).line_number,
            (final(self).buffer@, a@) == line_step(old(self).buffer@, line@),
    {
        let v = str_to_chars(line.as_str());
        let (start, end) = trim_range(&v, 0, v.len());
        proof {
            assert(v@.subrange(0, v@.len() as int) =~= line@);
        }
        let ghost t = trim(line@);
        if start == end {
            if self.buffer.as_str().unicode_len() > 0 {
                push_char(&mut self.buffer, '\n');
            }
            let out: Vec<String> = Vec::new();
            proof {
                assert(lines_view(out@) =~= Seq::<Seq<char>>::empty());
            }
            return show(out);
        }
        assert(t[0] == v@[start as int]);
        if v[start] == ':' {
            let a = if range_equals(&v, start, end, ":quit") || range_equals(&v, start, end, ":exit") {
                let out = vec![String::from_str("Goodbye!")];
                proof {
                    assert(lines_view(out@) =~= seq!["Goodbye!"@]);
                }
                exit(out)
            } else if range_equals(&v, start, end, ":help") {
                ReplAction::Help
            } else if range_equals(&v, start, end, ":clear") {
                ReplAction::ClearScreen
            } else if range_equals(&v, start, end, ":env") {
                let out = vec![
                    String::from_str("Environment variables:"),
                    String::from_str("  (environment inspection not yet implemented)"),
                ];
                proof {
                    assert(lines_view(out@) =~= seq![
                        "Environment variables:"@,
                        "  (environment inspection not yet implemented)"@,
                    ]);
                }
                show(out)
            } else if range_equals(&v, start, end, ":reset") {
                let out = vec![String::from_str("Environment reset.")];
                proof {
                    assert(lines_view(out@) =~= seq!["Environment reset."@]);
                }
                ReplAction::Reset(out)
            } else {
                let mut m = String::from_str("Unknown command: ");
                push_str(&mut m, chars_to_string(&v, start, end).as_str());
                let out = vec![m, String::from_str("Type :help for available commands.")];
                proof {
                    assert(lines_view(out@) =~= seq!["Unknown command: "@ + t, "Type :help for available commands."@]);
                }
                show(out)
            };
            return a;
        }
        if self.buffer.as_str().unicode_len() > 0 {
            push_char(&mut self.buffer, '\n');
        }
        push_str(&mut self.buffer, line.as_str());
        let source = self.buffer.clone();
        ReplAction::Run { line, source }
    }

    /// Decide what to do with the result of running the buffered source:
    /// show the value and move to the next line number, keep reading, or
    /// report the error; the buffer is dropped unless more lines are needed.
    pub fn on_outcome(&mut self, outcome: EvalOutcome) -> (out: Vec<String>)
        requires
            old(self).line_number < usize::MAX,
        ensures
            match outcome {
                EvalOutcome::Value(v) => {
                    &&& final(self).buffer@ == Seq::<char>::empty()
                    &&& final(self).line_number == old(self).line_number + 1
                    &&& lines_view(out@) == seq![v@]
                },
                EvalOutcome::Incomplete => {
                    &&& final(self).buffer@ == old(self).buffer@
                    &&& final(self).line_number == old(self).line_number
                    &&& out@.len() == 0
                },
                EvalOutcome::ParseError(m) => {
                    &&& final(self).buffer@ == Seq::<char>::empty()
                    &&& final(self).line_number == old(self).line_number
                    &&& lines_view(out@) == seq!["Parse error: "@ + m@]
                },
                EvalOutcome::RuntimeError(m) => {
                    &&& final(self).buffer@ == Seq::<char>::empty()
                    &&& final(self).line_number == old(self).line_number
                    &&& lines_view(out@) == seq!["Runtime error: "@ + m@]
                },
            },
    {
        let out = match outcome {
            EvalOutcome::Value(v) => {
                self.buffer = String::new();
                self.line_number += 1;
                vec![v]
            },
            EvalOutcome::Incomplete => Vec::new(),
            EvalOutcome::ParseError(m) => {
                self.buffer = String::new();
                let mut t = String::from_str("Parse error: ");
                push_str(&mut t, m.as_str());
                vec![t]
            },
            EvalOutcome::RuntimeError(m) => {
                self.buffer = String::new();
                let mut t = String::from_str("Runtime error: ");
                push_str(&mut t, m.as_str());
                vec![t]
            },
        };
        proof {
            assert(lines_view(out@) =~= out@.map_values(|s: String| s@));
        }
        out
    }
}

fn show(lines: Vec<String>) -> (a: ReplAction)
    ensures
        a@ == ActionView::Show(lines_view(lines@)),
{
    ReplAction::Show(lines)
}

fn exit(lines: Vec<String>) -> (a: ReplAction)
    ensures
        a@ == ActionView::Exit(lines_view(lines@)),
{
    ReplAction::Exit(lines)
}

} // verus!
