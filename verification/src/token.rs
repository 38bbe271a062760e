use vstd::prelude::*;

verus! {

/// A lexical token of Glimmer-Weave source text.
///
/// The type parameter is the representation of textual payloads: `String`
/// for executable tokens (`Token`), `Seq<char>` for their mathematical view.
#[derive(Debug, Clone, PartialEq)]
pub enum TokenOf<S> {
    /// Numeric literal, kept as its source digits (`42`, `3.14`)
    Number(S),
    /// String literal contents, escapes resolved
    Text(S),
    /// Boolean literal (`true` / `false`)
    Truth(bool),
    /// Identifier
    Ident(S),
    Bind,
    Weave,
    SetKeyword,
    To,
    As,
    Should,
    Then,
    End,
    Otherwise,
    For,
    Each,
    In,
    Range,
    Whilst,
    Break,
    Continue,
    Chant,
    Yield,
    Form,
    Variant,
    Seek,
    Where,
    By,
    Filter,
    Sort,
    Take,
    First,
    Last,
    Attempt,
    Harmonize,
    On,
    Match,
    When,
    With,
    Request,
    Justification,
    Triumph,
    Mishap,
    Present,
    Absent,
    After,
    Before,
    Descending,
    Ascending,
    /// `grove`: a module declaration
    Grove,
    /// `summon`: an import of a whole module
    Summon,
    /// `gather`: an import of named items
    Gather,
    /// `offer`: an export
    Offer,
    /// `aspect`: a trait definition
    Aspect,
    /// `embody`: a trait implementation
    Embody,
    /// `from`: where an import comes from
    From,
    Nothing,
    Is,
    IsNot,
    And,
    Or,
    Not,
    GreaterThan,
    LessThan,
    AtLeast,
    AtMost,
    Plus,
    Minus,
    Star,
    Slash,
    Percent,
    Arrow,
    LeftAngle,
    RightAngle,
    Pipe,
    LeftParen,
    RightParen,
    LeftBracket,
    RightBracket,
    LeftBrace,
    RightBrace,
    Comma,
    Colon,
    Dot,
    Question,
    Newline,
    Eof,
}

/// Executable token.
pub type Token = TokenOf<String>;

/// Mathematical view of a token.
pub type TokenView = TokenOf<Seq<char>>;

impl View for TokenOf<String> {
    type V = TokenOf<Seq<char>>;

    open spec fn view(&self) -> TokenOf<Seq<char>> {
        match self {
            TokenOf::Number(s) => TokenOf::Number(s@),
            TokenOf::Text(s) => TokenOf::Text(s@),
            TokenOf::Truth(b) => TokenOf::Truth(*b),
            TokenOf::Ident(s) => TokenOf::Ident(s@),
            TokenOf::Bind => TokenOf::Bind,
            TokenOf::Weave => TokenOf::Weave,
            TokenOf::SetKeyword => TokenOf::SetKeyword,
            TokenOf::To => TokenOf::To,
            TokenOf::As => TokenOf::As,
            TokenOf::Should => TokenOf::Should,
            TokenOf::Then => TokenOf::Then,
            TokenOf::End => TokenOf::End,
            TokenOf::Otherwise => TokenOf::Otherwise,
            TokenOf::For => TokenOf::For,
            TokenOf::Each => TokenOf::Each,
            TokenOf::In => TokenOf::In,
            TokenOf::Range => TokenOf::Range,
            TokenOf::Whilst => TokenOf::Whilst,
            TokenOf::Break => TokenOf::Break,
            TokenOf::Continue => TokenOf::Continue,
            TokenOf::Chant => TokenOf::Chant,
            TokenOf::Yield => TokenOf::Yield,
            TokenOf::Form => TokenOf::Form,
            TokenOf::Variant => TokenOf::Variant,
            TokenOf::Seek => TokenOf::Seek,
            TokenOf::Where => TokenOf::Where,
            TokenOf::By => TokenOf::By,
            TokenOf::Filter => TokenOf::Filter,
            TokenOf::Sort => TokenOf::Sort,
            TokenOf::Take => TokenOf::Take,
            TokenOf::First => TokenOf::First,
            TokenOf::Last => TokenOf::Last,
            TokenOf::Attempt => TokenOf::Attempt,
            TokenOf::Harmonize => TokenOf::Harmonize,
            TokenOf::On => TokenOf::On,
            TokenOf::Match => TokenOf::Match,
            TokenOf::When => TokenOf::When,
            TokenOf::With => TokenOf::With,
            TokenOf::Request => TokenOf::Request,
            TokenOf::Justification => TokenOf::Justification,
            TokenOf::Triumph => TokenOf::Triumph,
            TokenOf::Mishap => TokenOf::Mishap,
            TokenOf::Present => TokenOf::Present,
            TokenOf::Absent => TokenOf::Absent,
            TokenOf::After => TokenOf::After,
            TokenOf::Before => TokenOf::Before,
            TokenOf::Descending => TokenOf::Descending,
            TokenOf::Ascending => TokenOf::Ascending,
            TokenOf::Grove => TokenOf::Grove,
            TokenOf::Summon => TokenOf::Summon,
            TokenOf::Gather => TokenOf::Gather,
            TokenOf::Offer => TokenOf::Offer,
            TokenOf::Aspect => TokenOf::Aspect,
            TokenOf::Embody => TokenOf::Embody,
            TokenOf::From => TokenOf::From,
            TokenOf::Nothing => TokenOf::Nothing,
            TokenOf::Is => TokenOf::Is,
            TokenOf::IsNot => TokenOf::IsNot,
            TokenOf::And => TokenOf::And,
            TokenOf::Or => TokenOf::Or,
            TokenOf::Not => TokenOf::Not,
            TokenOf::GreaterThan => TokenOf::GreaterThan,
            TokenOf::LessThan => TokenOf::LessThan,
            TokenOf::AtLeast => TokenOf::AtLeast,
            TokenOf::AtMost => TokenOf::AtMost,
            TokenOf::Plus => TokenOf::Plus,
            TokenOf::Minus => TokenOf::Minus,
            TokenOf::Star => TokenOf::Star,
            TokenOf::Slash => TokenOf::Slash,
            TokenOf::Percent => TokenOf::Percent,
            TokenOf::Arrow => TokenOf::Arrow,
            TokenOf::LeftAngle => TokenOf::LeftAngle,
            TokenOf::RightAngle => TokenOf::RightAngle,
            TokenOf::Pipe => TokenOf::Pipe,
            TokenOf::LeftParen => TokenOf::LeftParen,
            TokenOf::RightParen => TokenOf::RightParen,
            TokenOf::LeftBracket => TokenOf::LeftBracket,
            TokenOf::RightBracket => TokenOf::RightBracket,
            TokenOf::LeftBrace => TokenOf::LeftBrace,
            TokenOf::RightBrace => TokenOf::RightBrace,
            TokenOf::Comma => TokenOf::Comma,
            TokenOf::Colon => TokenOf::Colon,
            TokenOf::Dot => TokenOf::Dot,
            TokenOf::Question => TokenOf::Question,
            TokenOf::Newline => TokenOf::Newline,
            TokenOf::Eof => TokenOf::Eof,
        }
    }
}
/// Line and column of a token's first character (both counted from 1).
#[derive(Debug, Clone, Copy, PartialEq, Eq, Structural)]
pub struct Span {
    pub line: usize,
    pub column: usize,
}

impl Span {
    pub fn new(line: usize, column: usize) -> (s: Span)
        ensures
            s.line == line,
            s.column == column,
    {
        Span { line, column }
    }

    /// The span as a point source span.
    pub fn to_source_span(&self) -> (s: crate::source_location::SourceSpan)
        ensures
            s.start.line == self.line,
            s.start.column == self.column,
            s.end == s.start,
    {
        crate::source_location::SourceSpan::point(
            crate::source_location::SourceLocation::new(self.line, self.column),
        )
    }
}

/// A token together with the place where it starts.
#[derive(Debug, Clone, PartialEq)]
pub struct PositionedToken {
    pub token: Token,
    pub span: Span,
}

} // verus!
