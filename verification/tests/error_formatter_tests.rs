use glimmer_weave::error_formatter::{Diagnostic, Label, Severity};
use glimmer_weave::source_location::{SourceLocation, SourceSpan};

#[test]
fn test_diagnostic_format() {
    let span = SourceSpan::point(SourceLocation::new(10, 5));
    let diag = Diagnostic::error("Use of moved value 'x'")
        .with_primary_label(span, "value used here")
        .with_note("'x' was moved on line 8");

    let formatted = diag.format();
    assert!(formatted.contains("error: Use of moved value 'x'"));
    assert!(formatted.contains("line 10:5"));
    assert!(formatted.contains("value used here"));
    assert!(formatted.contains("note: 'x' was moved on line 8"));
}

#[test]
fn diagnostic_format_exact() {
    let a = SourceSpan::point(SourceLocation::new(3, 7));
    let b = SourceSpan::point(SourceLocation::new(1, 2));
    let diag = Diagnostic::warning("unused value")
        .with_primary_label(a, "here")
        .with_secondary_label(b, "declared")
        .with_note("first")
        .with_note("second");
    assert_eq!(
        diag.format(),
        "warning: unused value\n  ---> line 3:7: here\n  ---- line 1:2: declared\n  = note: first\n  = note: second\n"
    );
}

#[test]
fn note_appends_one_line() {
    let d = Diagnostic::error("boom");
    let before = d.format();
    let after = d.with_note("extra").format();
    assert_eq!(after, format!("{}  = note: extra\n", before));
}

#[test]
fn severities_and_labels() {
    assert_eq!(Severity::Error.to_text(), "error");
    assert_eq!(Severity::Warning.to_text(), "warning");
    assert_eq!(Severity::Info.to_text(), "info");
    assert_eq!(Severity::Help.to_text(), "help");
    let l = Label::secondary(SourceSpan::unknown(), "m");
    assert!(!l.primary);
    assert_eq!(l.message, Some("m".to_string()));
    assert!(Label::primary(SourceSpan::unknown(), "p").primary);
    assert_eq!(SourceSpan::unknown().to_text(), "line 0:0");
}
