use glimmer_weave::ast::{AstNode, Parameter, TypeAnnotation};
use glimmer_weave::borrow_checker::{BorrowChecker, BorrowError};
use glimmer_weave::source_location::{SourceLocation, SourceSpan};

fn ident(name: &str) -> AstNode {
    AstNode::Ident { name: name.to_string(), span: SourceSpan::unknown() }
}

fn at(line: usize, column: usize) -> SourceSpan {
    SourceSpan::point(SourceLocation::new(line, column))
}

fn bind(name: &str, value: AstNode) -> AstNode {
    AstNode::BindStmt { name: name.to_string(), typ: None, value: Box::new(value), span: SourceSpan::unknown() }
}

fn empty_list() -> AstNode {
    AstNode::List { elements: vec![], span: SourceSpan::unknown() }
}

#[test]
fn test_borrow_checker_basic() {
    let mut checker = BorrowChecker::new();
    let nodes = vec![AstNode::BindStmt {
        name: "x".to_string(),
        typ: None,
        value: Box::new(AstNode::Number { value: "42".to_string(), span: SourceSpan::unknown() }),
        span: SourceSpan::unknown(),
    }];

    assert!(checker.check(&nodes).is_ok());
}

#[test]
fn test_move_tracking_basic() {
    let mut checker = BorrowChecker::new();

    // bind data to [1, 2, 3]
    // bind moved to data   # data is moved here
    // use data again        # ERROR: use after move
    let nodes = vec![bind("data", empty_list()), bind("moved", ident("data")), ident("data")];

    let result = checker.check(&nodes);
    assert!(result.is_err(), "Should detect use-after-move");

    let errors = result.unwrap_err();
    assert_eq!(errors.len(), 1);

    match &errors[0] {
        BorrowError::UseAfterMove { variable, .. } => {
            assert_eq!(variable, "data");
        }
        _ => panic!("Expected UseAfterMove error"),
    }
}

#[test]
fn test_borrow_prevents_move() {
    let mut checker = BorrowChecker::new();

    // bind data to [1, 2, 3]
    // process(borrow data)  # borrow, not move
    // use data again         # OK: data still owned
    let nodes = vec![
        bind("data", empty_list()),
        AstNode::Call {
            callee: Box::new(ident("process")),
            type_args: vec![],
            args: vec![AstNode::BorrowExpr { value: Box::new(ident("data")), mutable: false, span: SourceSpan::unknown() }],
            span: SourceSpan::unknown(),
        },
        ident("data"),
    ];

    let result = checker.check(&nodes);
    assert!(result.is_ok(), "Borrowing should not move the value");
}

#[test]
fn use_after_move_reports_both_places() {
    let mut checker = BorrowChecker::default();
    let nodes = vec![
        bind("data", empty_list()),
        AstNode::BindStmt { name: "other".to_string(), typ: None, value: Box::new(AstNode::Ident { name: "data".to_string(), span: at(2, 15) }), span: at(2, 1) },
        AstNode::Ident { name: "data".to_string(), span: at(3, 1) },
    ];
    let errors = checker.check(&nodes).unwrap_err();
    assert_eq!(errors.len(), 1);
    assert_eq!(errors[0].to_text(), "Use of moved value 'data'\n  moved at: line 2:1\n  used at: line 3:1");
}

#[test]
fn moving_twice_is_reported() {
    let mut checker = BorrowChecker::new();
    let nodes = vec![bind("a", empty_list()), bind("b", ident("a")), bind("c", ident("a"))];
    let errors = checker.check(&nodes).unwrap_err();
    assert_eq!(errors.len(), 1);
    assert!(matches!(&errors[0], BorrowError::UseAfterMove { variable, .. } if variable == "a"));
}

#[test]
fn passing_a_variable_to_a_call_moves_it() {
    let mut checker = BorrowChecker::new();
    let call = AstNode::Call { callee: Box::new(ident("consume")), type_args: vec![], args: vec![ident("data")], span: SourceSpan::unknown() };
    let nodes = vec![bind("data", empty_list()), call, ident("data")];
    let errors = checker.check(&nodes).unwrap_err();
    assert_eq!(errors.len(), 1);
}

#[test]
fn borrowing_a_moved_value_is_reported() {
    let mut checker = BorrowChecker::new();
    let call = AstNode::Call {
        callee: Box::new(ident("look")),
        type_args: vec![],
        args: vec![AstNode::BorrowExpr { value: Box::new(ident("data")), mutable: false, span: at(4, 6) }],
        span: SourceSpan::unknown(),
    };
    let nodes = vec![bind("data", empty_list()), bind("taken", ident("data")), call];
    let errors = checker.check(&nodes).unwrap_err();
    // the borrow itself, then the use of the moved name inside it
    assert_eq!(errors.len(), 2);
    assert!(matches!(&errors[0], BorrowError::BorrowOfMovedValue { variable, borrowed_at, .. } if variable == "data" && *borrowed_at == at(4, 6)));
    assert!(matches!(&errors[1], BorrowError::UseAfterMove { .. }));
}

#[test]
fn assigning_to_a_borrowed_parameter_is_reported() {
    let mut checker = BorrowChecker::new();
    let chant = AstNode::ChantDef {
        name: "f".to_string(),
        type_params: vec![],
        lifetime_params: vec![],
        params: vec![
            Parameter::borrowed("shared".to_string(), TypeAnnotation::Named("Number".to_string()), None),
            Parameter::borrowed_mut("unique".to_string(), TypeAnnotation::Named("Number".to_string()), None),
        ],
        return_type: None,
        body: vec![
            AstNode::SetStmt { target: Box::new(ident("unique")), value: Box::new(AstNode::Truth { value: true, span: SourceSpan::unknown() }), span: at(7, 3) },
        ],
        span: SourceSpan::unknown(),
    };
    let errors = checker.check(&[chant]).unwrap_err();
    assert_eq!(errors.len(), 1);
    assert!(matches!(&errors[0], BorrowError::MultipleMutableBorrows { variable, second_borrow_at, .. } if variable == "unique" && *second_borrow_at == at(7, 3)));
}

#[test]
fn errors_accumulate_across_calls() {
    let mut checker = BorrowChecker::new();
    let first = vec![bind("a", empty_list()), bind("b", ident("a")), ident("a")];
    assert_eq!(checker.check(&first).unwrap_err().len(), 1);
    let second = vec![ident("a")];
    assert_eq!(checker.check(&second).unwrap_err().len(), 2);
}
