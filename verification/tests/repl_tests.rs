use glimmer_weave::repl::{
    is_incomplete, parse_error_is_incomplete, EvalOutcome, ReplAction, ReplEvent, ReplState,
};

#[test]
fn complete_single_line() {
    assert!(!is_incomplete("bind x to 42"));
    assert!(!is_incomplete(""));
}

#[test]
fn open_block_needs_more() {
    assert!(is_incomplete("chant f(x) then\n    yield x"));
    assert!(is_incomplete("  for each item in list then"));
    assert!(is_incomplete("form Point with\n  x as Number"));
}

#[test]
fn closed_block_is_complete() {
    assert!(!is_incomplete("chant f(x) then\n    yield x\nend"));
    assert!(!is_incomplete("should x then\n  bind y to 1\nend \r\n"));
}

#[test]
fn nested_blocks_count() {
    let src = "chant f(n) then\n  should n then\n    yield 1\n  end\n";
    assert!(is_incomplete(src));
    assert!(!is_incomplete(&format!("{}end", src)));
}

#[test]
fn trailing_keyword_needs_more() {
    assert!(is_incomplete("bind x to y then"));
    assert!(is_incomplete("x otherwise  "));
    assert!(is_incomplete("match v with"));
    assert!(is_incomplete("a when"));
    assert!(!is_incomplete("then"));
}

#[test]
fn keyword_needs_a_following_space() {
    // "chanting" is not "chant "
    assert!(!is_incomplete("chanting"));
    assert!(!is_incomplete("ending"));
}

#[test]
fn extra_end_is_not_incomplete() {
    assert!(!is_incomplete("end\nend"));
}

fn line(s: &str) -> ReplEvent {
    ReplEvent::Line(s.to_string())
}

fn shown(a: ReplAction) -> Vec<String> {
    match a {
        ReplAction::Show(lines) => lines,
        _ => panic!("expected lines to show"),
    }
}

#[test]
fn prompt_shows_line_number_then_continuation() {
    let mut state = ReplState::new();
    assert_eq!(state.prompt(), "glimmer[1]> ");
    match state.on_event(line("should x then")) {
        ReplAction::Run { line, source } => {
            assert_eq!(line, "should x then");
            assert_eq!(source, "should x then");
        },
        _ => panic!("expected to run"),
    }
    assert_eq!(state.on_outcome(EvalOutcome::Incomplete), Vec::<String>::new());
    assert_eq!(state.prompt(), "       ...> ");
    match state.on_event(line("end")) {
        ReplAction::Run { source, .. } => assert_eq!(source, "should x then\nend"),
        _ => panic!("expected to run"),
    }
    assert_eq!(state.on_outcome(EvalOutcome::Value("42".to_string())), vec!["42".to_string()]);
    assert_eq!(state.buffer, "");
    assert_eq!(state.prompt(), "glimmer[2]> ");
}

#[test]
fn blank_lines_continue_multiline_input() {
    let mut state = ReplState::new();
    assert!(shown(state.on_event(line("   "))).is_empty());
    assert_eq!(state.buffer, "");
    state.buffer = "chant f() then".to_string();
    assert!(shown(state.on_event(line(""))).is_empty());
    assert_eq!(state.buffer, "chant f() then\n");
}

#[test]
fn commands() {
    let mut state = ReplState::new();
    assert!(matches!(state.on_event(line(" :help ")), ReplAction::Help));
    assert!(matches!(state.on_event(line(":clear")), ReplAction::ClearScreen));
    match state.on_event(line(":quit")) {
        ReplAction::Exit(lines) => assert_eq!(lines, vec!["Goodbye!".to_string()]),
        _ => panic!("expected to exit"),
    }
    assert!(matches!(state.on_event(line(":exit")), ReplAction::Exit(_)));
    match state.on_event(line(":reset")) {
        ReplAction::Reset(lines) => assert_eq!(lines, vec!["Environment reset.".to_string()]),
        _ => panic!("expected a reset"),
    }
    assert_eq!(
        shown(state.on_event(line(":env"))),
        vec!["Environment variables:".to_string(), "  (environment inspection not yet implemented)".to_string()]
    );
    assert_eq!(
        shown(state.on_event(line(":what"))),
        vec!["Unknown command: :what".to_string(), "Type :help for available commands.".to_string()]
    );
}

#[test]
fn interrupt_drops_buffered_input() {
    let mut state = ReplState::new();
    assert_eq!(shown(state.on_event(ReplEvent::Interrupted)), vec!["(To exit, press Ctrl+D or type :quit)".to_string()]);
    state.buffer = "bind x to".to_string();
    assert_eq!(shown(state.on_event(ReplEvent::Interrupted)), vec!["^C".to_string()]);
    assert_eq!(state.buffer, "");
}

#[test]
fn end_of_input_and_failures_exit() {
    let mut state = ReplState::new();
    match state.on_event(ReplEvent::Eof) {
        ReplAction::Exit(lines) => assert_eq!(lines, vec!["Goodbye!".to_string()]),
        _ => panic!("expected to exit"),
    }
    match state.on_event(ReplEvent::Failed("Io".to_string())) {
        ReplAction::Exit(lines) => assert_eq!(lines, vec!["Error: Io".to_string()]),
        _ => panic!("expected to exit"),
    }
}

#[test]
fn errors_drop_the_buffer_without_counting() {
    let mut state = ReplState::new();
    state.buffer = "1 +".to_string();
    assert_eq!(state.on_outcome(EvalOutcome::ParseError("bad".to_string())), vec!["Parse error: bad".to_string()]);
    assert_eq!(state.buffer, "");
    state.buffer = "f()".to_string();
    assert_eq!(
        state.on_outcome(EvalOutcome::RuntimeError("boom".to_string())),
        vec!["Runtime error: boom".to_string()]
    );
    assert_eq!(state.buffer, "");
    assert_eq!(state.line_number, 1);
}

#[test]
fn parse_errors_that_mean_more_input() {
    assert!(parse_error_is_incomplete("Expected End, found Eof", "x"));
    assert!(parse_error_is_incomplete("Unexpected end of input", "x"));
    assert!(parse_error_is_incomplete("Unexpected token: Comma", "should x then "));
    assert!(parse_error_is_incomplete("Unexpected token: Comma", "a otherwise"));
    assert!(!parse_error_is_incomplete("Unexpected token: Comma", "1 , 2"));
    assert!(!parse_error_is_incomplete("", ""));
}
