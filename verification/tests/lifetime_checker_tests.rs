use glimmer_weave::ast::{AstNode, Lifetime, Parameter, TypeAnnotation};
use glimmer_weave::lifetime_checker::{LifetimeChecker, LifetimeError};
use glimmer_weave::source_location::{SourceLocation, SourceSpan};

fn num(v: &str) -> AstNode {
    AstNode::Number { value: v.to_string(), span: SourceSpan::unknown() }
}

fn borrowed(lt: &str) -> TypeAnnotation {
    TypeAnnotation::Borrowed {
        lifetime: Some(Lifetime::new(lt)),
        inner: Box::new(TypeAnnotation::Named("Number".to_string())),
        mutable: false,
    }
}

fn chant(lifetimes: &[&str], params: Vec<Parameter>, body: Vec<AstNode>) -> AstNode {
    AstNode::ChantDef {
        name: "f".to_string(),
        type_params: vec![],
        lifetime_params: lifetimes.iter().map(|l| Lifetime::new(l)).collect(),
        params,
        return_type: None,
        body,
        span: SourceSpan::unknown(),
    }
}

#[test]
fn test_lifetime_checker_basic() {
    let mut checker = LifetimeChecker::new();
    let nodes = vec![AstNode::BindStmt {
        name: "x".to_string(),
        typ: None,
        value: Box::new(num("42")),
        span: SourceSpan::unknown(),
    }];

    assert!(checker.check(&nodes).is_ok());
}

#[test]
fn undeclared_lifetime_in_parameter_type() {
    let mut checker = LifetimeChecker::new();
    let p = Parameter { name: "r".to_string(), typ: Some(borrowed("a")), is_variadic: false, borrow_mode: glimmer_weave::ast::BorrowMode::Borrowed, lifetime: None };
    let errors = checker.check(&[chant(&[], vec![p], vec![])]).unwrap_err();
    assert_eq!(errors.len(), 1);
    assert_eq!(errors[0].to_text(), "Lifetime 'a' is not declared\n  at: line 0:0");
}

#[test]
fn declared_and_static_lifetimes_pass() {
    let mut checker = LifetimeChecker::default();
    let p1 = Parameter { name: "r".to_string(), typ: Some(borrowed("a")), is_variadic: false, borrow_mode: glimmer_weave::ast::BorrowMode::Borrowed, lifetime: Some(Lifetime::new("a")) };
    let p2 = Parameter { name: "s".to_string(), typ: Some(borrowed("static")), is_variadic: false, borrow_mode: glimmer_weave::ast::BorrowMode::Borrowed, lifetime: None };
    assert!(checker.check(&[chant(&["a"], vec![p1, p2], vec![])]).is_ok());
}

#[test]
fn lifetime_goes_out_of_scope_after_function() {
    let mut checker = LifetimeChecker::new();
    let p = Parameter { name: "r".to_string(), typ: Some(borrowed("a")), is_variadic: false, borrow_mode: glimmer_weave::ast::BorrowMode::Borrowed, lifetime: None };
    let nodes = vec![chant(&["a"], vec![], vec![]), chant(&[], vec![p], vec![])];
    let errors = checker.check(&nodes).unwrap_err();
    assert_eq!(errors.len(), 1);
    assert!(matches!(&errors[0], LifetimeError::UndeclaredLifetime { lifetime, .. } if lifetime == "a"));
}

#[test]
fn returning_a_borrowed_local_is_reported() {
    let mut checker = LifetimeChecker::new();
    let at = SourceSpan::point(SourceLocation::new(3, 5));
    let body = vec![
        AstNode::BindStmt { name: "r".to_string(), typ: Some(borrowed("a")), value: Box::new(num("1")), span: SourceSpan::unknown() },
        AstNode::YieldStmt { value: Box::new(AstNode::Ident { name: "r".to_string(), span: SourceSpan::unknown() }), span: at },
    ];
    let errors = checker.check(&[chant(&["a"], vec![], body)]).unwrap_err();
    assert_eq!(errors.len(), 1);
    assert_eq!(errors[0].to_text(), "Cannot return reference to local variable 'r'\n  at: line 3:5");
}

#[test]
fn error_messages() {
    let s = SourceSpan::point(SourceLocation::new(1, 2));
    let e = LifetimeError::OutlivesReferent { reference: "r".to_string(), reference_lifetime: "a".to_string(), referent_lifetime: "b".to_string(), span: s };
    assert_eq!(e.to_text(), "Reference 'r' with lifetime 'a' outlives referent with lifetime 'b'\n  at: line 1:2");
    let e = LifetimeError::LifetimeConflict { first: "a".to_string(), second: "b".to_string(), span: s };
    assert_eq!(e.to_text(), "Conflicting lifetime requirements: 'a' and 'b'\n  at: line 1:2");
}
