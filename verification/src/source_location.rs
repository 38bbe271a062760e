use vstd::prelude::*;
use crate::text::{push_str, usize_to_string, spec_decimal};

verus! {

/// A position in source text (line and column, counted from 1; 0 when unknown).
#[derive(Debug, Clone, Copy, PartialEq, Eq, Structural)]
pub struct SourceLocation {
    pub line: usize,
    pub column: usize,
}

impl SourceLocation {
    pub fn new(line: usize, column: usize) -> (l: SourceLocation)
        ensures
            l.line == line,
            l.column == column,
    {
        SourceLocation { line, column }
    }
}

/// A stretch of source text, from `start` to `end`.
#[derive(Debug, Clone, Copy, PartialEq, Eq, Structural)]
pub struct SourceSpan {
    pub start: SourceLocation,
    pub end: SourceLocation,
}

/// How a span is shown in diagnostics: `line L:C` of its start.
pub open spec fn spec_span_text(s: SourceSpan) -> Seq<char> {
    "line "@ + spec_decimal(s.start.line as nat) + ":"@ + spec_decimal(s.start.column as nat)
}

impl SourceSpan {
    /// A span covering a single location.
    pub fn point(loc: SourceLocation) -> (s: SourceSpan)
        ensures
            s.start == loc,
            s.end == loc,
    {
        SourceSpan { start: loc, end: loc }
    }

    /// The span of code with no known position: line 0, column 0.
    pub open spec fn spec_unknown() -> SourceSpan {
        SourceSpan { start: SourceLocation { line: 0, column: 0 }, end: SourceLocation { line: 0, column: 0 } }
    }

    /// A span for code with no known position.
    pub fn unknown() -> (s: SourceSpan)
        ensures
            s == SourceSpan::spec_unknown(),
    {
        SourceSpan { start: SourceLocation { line: 0, column: 0 }, end: SourceLocation { line: 0, column: 0 } }
    }

    /// Text of the span as shown in diagnostics.
    pub fn to_text(&self) -> (t: String)
        ensures
            t@ == spec_span_text(*self),
    {
        let mut t = String::from_str("line ");
        let l = usize_to_string(self.start.line);
        push_str(&mut t, l.as_str());
        push_str(&mut t, ":");
        let c = usize_to_string(self.start.column);
        push_str(&mut t, c.as_str());
        t
    }
}

} // verus!
