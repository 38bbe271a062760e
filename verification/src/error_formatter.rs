//! Diagnostics with source location information.

use vstd::prelude::*;
use crate::source_location::{SourceSpan, spec_span_text};
use crate::text::push_str;

verus! {

/// Severity level of a diagnostic message
#[derive(Debug, Clone, Copy, PartialEq, Eq, Structural)]
pub enum Severity {
    /// Error: compilation cannot continue
    Error,
    /// Warning: potential issue but compilation can continue
    Warning,
    /// Info: informational message
    Info,
    /// Help: suggestion for fixing an error
    Help,
}

/// How a severity is written.
pub open spec fn severity_text(s: Severity) -> Seq<char> {
    match s {
        Severity::Error => "error"@,
        Severity::Warning => "warning"@,
        Severity::Info => "info"@,
        Severity::Help => "help"@,
    }
}

impl Severity {
    /// The severity as written in diagnostics (`error`, `warning`, `info`, `help`).
    pub fn to_text(&self) -> (s: String)
        ensures
            s@ == severity_text(*self),
    {
        match self {
            Severity::Error => String::from_str("error"),
            Severity::Warning => String::from_str("warning"),
            Severity::Info => String::from_str("info"),
            Severity::Help => String::from_str("help"),
        }
    }
}

/// A label pointing to a specific location in source code
#[derive(Debug, Clone)]
pub struct Label {
    /// The source location this label points to
    pub span: SourceSpan,
    /// The message for this label
    pub message: Option<String>,
    /// Whether this is the primary label (highlighted differently)
    pub primary: bool,
}

/// Mathematical view of a label.
pub struct LabelView {
    pub span: SourceSpan,
    pub message: Option<Seq<char>>,
    pub primary: bool,
}

impl View for Label {
    type V = LabelView;

    open spec fn view(&self) -> LabelView {
        LabelView {
            span: self.span,
            message: match self.message {
                Some(m) => Some(m@),
                None => None,
            },
            primary: self.primary,
        }
    }
}

impl Label {
    /// Create a new primary label at the given span
    pub fn primary(span: SourceSpan, message: &str) -> (l: Label)
        ensures
            l@ == (LabelView { span, message: Some(message@), primary: true }),
    {
        Label { span, message: Some(String::from_str(message)), primary: true }
    }

    /// Create a new secondary label at the given span
    pub fn secondary(span: SourceSpan, message: &str) -> (l: Label)
        ensures
            l@ == (LabelView { span, message: Some(message@), primary: false }),
    {
        Label { span, message: Some(String::from_str(message)), primary: false }
    }
}

/// A diagnostic message with source location information
#[derive(Debug, Clone)]
pub struct Diagnostic {
    /// Severity of this diagnostic
    pub severity: Severity,
    /// Main error message
    pub message: String,
    /// Labels pointing to relevant source locations
    pub labels: Vec<Label>,
    /// Additional notes or suggestions
    pub notes: Vec<String>,
}

/// Mathematical view of a diagnostic.
#[verifier::ext_equal]
pub struct DiagnosticView {
    pub severity: Severity,
    pub message: Seq<char>,
    pub labels: Seq<LabelView>,
    pub notes: Seq<Seq<char>>,
}

impl View for Diagnostic {
    type V = DiagnosticView;

    open spec fn view(&self) -> DiagnosticView {
        DiagnosticView {
            severity: self.severity,
            message: self.message@,
            labels: self.labels@.map_values(|l: Label| l@),
            notes: self.notes@.map_values(|n: String| n@),
        }
    }
}

/// One line for a label: an arrow (`--->` for the primary label), the
/// span, and the label's message if it has one.
pub open spec fn label_line(l: LabelView) -> Seq<char> {
    "  "@ + (if l.primary { "--->"@ } else { "----"@ }) + " "@ + spec_span_text(l.span) + (match l.message {
        Some(m) => ": "@ + m,
        None => Seq::empty(),
    }) + "\n"@
}

/// The label lines, in order.
pub open spec fn label_lines(ls: Seq<LabelView>) -> Seq<char>
    decreases ls.len(),
{
    if ls.len() == 0 {
        Seq::empty()
    } else {
        label_lines(ls.drop_last()) + label_line(ls.last())
    }
}

/// One line for a note.
pub open spec fn note_line(n: Seq<char>) -> Seq<char> {
    "  = note: "@ + n + "\n"@
}

/// The note lines, in order.
pub open spec fn note_lines(ns: Seq<Seq<char>>) -> Seq<char>
    decreases ns.len(),
{
    if ns.len() == 0 {
        Seq::empty()
    } else {
        note_lines(ns.drop_last()) + note_line(ns.last())
    }
}

/// A formatted diagnostic: `severity: message`, then the labels, then the notes.
pub open spec fn diagnostic_text(d: DiagnosticView) -> Seq<char> {
    severity_text(d.severity) + ": "@ + d.message + "\n"@ + label_lines(d.labels) + note_lines(d.notes)
}

impl Diagnostic {
    /// Create a new error diagnostic
    pub fn error(message: &str) -> (d: Diagnostic)
        ensures
            d@ == (DiagnosticView {
                severity: Severity::Error,
                message: message@,
                labels: Seq::empty(),
                notes: Seq::empty(),
            }),
    {
        let d = Diagnostic {
            severity: Severity::Error,
            message: String::from_str(message),
            labels: Vec::new(),
            notes: Vec::new(),
        };
        assert(d@ =~= DiagnosticView {
            severity: Severity::Error,
            message: message@,
            labels: Seq::empty(),
            notes: Seq::empty(),
        });
        d
    }

    /// Create a new warning diagnostic
    pub fn warning(message: &str) -> (d: Diagnostic)
        ensures
            d@ == (DiagnosticView {
                severity: Severity::Warning,
                message: message@,
                labels: Seq::empty(),
                notes: Seq::empty(),
            }),
    {
        let d = Diagnostic {
            severity: Severity::Warning,
            message: String::from_str(message),
            labels: Vec::new(),
            notes: Vec::new(),
        };
        assert(d@ =~= DiagnosticView {
            severity: Severity::Warning,
            message: message@,
            labels: Seq::empty(),
            notes: Seq::empty(),
        });
        d
    }

    /// Add a primary label to this diagnostic
    pub fn with_primary_label(self, span: SourceSpan, message: &str) -> (d: Diagnostic)
        ensures
            d@ == (DiagnosticView {
                labels: self@.labels.push(LabelView { span, message: Some(message@), primary: true }),
                ..self@
            }),
    {
        let mut d = self;
        d.labels.push(Label::primary(span, message));
        assert(d@ =~= DiagnosticView {
            labels: self@.labels.push(LabelView { span, message: Some(message@), primary: true }),
            ..self@
        });
        d
    }

    /// Add a secondary label to this diagnostic
    pub fn with_secondary_label(self, span: SourceSpan, message: &str) -> (d: Diagnostic)
        ensures
            d@ == (DiagnosticView {
                labels: self@.labels.push(LabelView { span, message: Some(message@), primary: false }),
                ..self@
            }),
    {
        let mut d = self;
        d.labels.push(Label::secondary(span, message));
        assert(d@ =~= DiagnosticView {
            labels: self@.labels.push(LabelView { span, message: Some(message@), primary: false }),
            ..self@
        });
        d
    }

    /// Add a note to this diagnostic
    pub fn with_note(self, note: &str) -> (d: Diagnostic)
        ensures
            d@ == (DiagnosticView { notes: self@.notes.push(note@), ..self@ }),
    {
        let mut d = self;
        d.notes.push(String::from_str(note));
        assert(d@ =~= DiagnosticView { notes: self@.notes.push(note@), ..self@ });
        d
    }

    /// Format this diagnostic for display
    pub fn format(&self) -> (out: String)
        ensures
            out@ == diagnostic_text(self@),
    {
        let mut output = self.severity.to_text();
        push_str(&mut output, ": ");
        push_str(&mut output, self.message.as_str());
        push_str(&mut output, "\n");
        let ghost head = output@;
        let ghost labels = self@.labels;

        // Add labels
        let mut i: usize = 0;
        while i < self.labels.len()
            invariant
                i <= self.labels.len(),
                labels == self@.labels,
                output@ == head + label_lines(labels.subrange(0, i as int)),
            decreases self.labels.len() - i,
        {
            let label = &self.labels[i];
            let ghost before = output@;
            push_str(&mut output, "  ");
            if label.primary {
                push_str(&mut output, "--->");
            } else {
                push_str(&mut output, "----");
            }
            push_str(&mut output, " ");
            let span_text = label.span.to_text();
            push_str(&mut output, span_text.as_str());
            match &label.message {
                Some(msg) => {
                    push_str(&mut output, ": ");
                    push_str(&mut output, msg.as_str());
                },
                None => {},
            }
            push_str(&mut output, "\n");
            assert(output@ =~= before + label_line(labels[i as int]));
            i = i + 1;
            assert(labels.subrange(0, i as int).drop_last() =~= labels.subrange(0, i - 1));
        }
        assert(labels.subrange(0, i as int) =~= labels);
        let ghost mid = output@;
        let ghost notes = self@.notes;

        // Add notes
        let mut j: usize = 0;
        while j < self.notes.len()
            invariant
                j <= self.notes.len(),
                notes == self@.notes,
                output@ == mid + note_lines(notes.subrange(0, j as int)),
            decreases self.notes.len() - j,
        {
            let ghost before = output@;
            push_str(&mut output, "  = note: ");
            push_str(&mut output, self.notes[j].as_str());
            push_str(&mut output, "\n");
            assert(output@ =~= before + note_line(notes[j as int]));
            j = j + 1;
            assert(notes.subrange(0, j as int).drop_last() =~= notes.subrange(0, j - 1));
        }
        assert(notes.subrange(0, j as int) =~= notes);
        assert(output@ =~= diagnostic_text(self@));
        output
    }
}

/// Adding a note to a diagnostic adds one line at the end of its text.
pub proof fn lemma_note_appends_line(d: DiagnosticView, note: Seq<char>)
    ensures
        diagnostic_text(DiagnosticView { notes: d.notes.push(note), ..d }) == diagnostic_text(d)
            + note_line(note),
{
    let d2 = DiagnosticView { notes: d.notes.push(note), ..d };
    assert(d2.notes.drop_last() =~= d.notes);
    assert(diagnostic_text(d2) =~= diagnostic_text(d) + note_line(note));
}

/// A formatted diagnostic starts with its severity and message.
pub proof fn lemma_text_starts_with_message(d: DiagnosticView)
    ensures
        diagnostic_text(d).subrange(0, (severity_text(d.severity).len() + 2 + d.message.len()) as int)
            == severity_text(d.severity) + ": "@ + d.message,
{
    let head = severity_text(d.severity) + ": "@ + d.message;
    reveal_strlit(": ");
    assert(diagnostic_text(d) == head + ("\n"@ + label_lines(d.labels) + note_lines(d.notes)));
    assert(diagnostic_text(d).subrange(0, head.len() as int) =~= head);
}

} // verus!
