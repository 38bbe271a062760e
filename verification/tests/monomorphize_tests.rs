use glimmer_weave::ast::{AstNode, BorrowMode, Lifetime, Parameter, TypeAnnotation};
use glimmer_weave::monomorphize::{
    substitute_type_annotation_helper, type_annotation_to_string, Monomorphizer, TypeInstantiation,
};
use glimmer_weave::source_location::SourceSpan;

#[test]
fn test_type_instantiation_specialized_name() {
    let inst = TypeInstantiation {
        function_name: "identity".to_string(),
        type_args: vec!["Number".to_string()],
    };
    assert_eq!(inst.specialized_name(), "identity_Number");

    let inst2 = TypeInstantiation {
        function_name: "pair".to_string(),
        type_args: vec!["Number".to_string(), "Text".to_string()],
    };
    assert_eq!(inst2.specialized_name(), "pair_Number_Text");
}

#[test]
fn specialized_name_without_type_arguments() {
    let inst = TypeInstantiation { function_name: "plain".to_string(), type_args: vec![] };
    assert_eq!(inst.specialized_name(), "plain");
}

#[test]
fn annotation_spellings() {
    let n = || Box::new(TypeAnnotation::Named("Number".to_string()));
    assert_eq!(type_annotation_to_string(&TypeAnnotation::List(n())), "List_Number");
    assert_eq!(
        type_annotation_to_string(&TypeAnnotation::Parametrized {
            name: "Pair".to_string(),
            type_args: vec![TypeAnnotation::Generic("T".to_string()), TypeAnnotation::Named("Text".to_string())],
        }),
        "Pair_T_Text"
    );
    assert_eq!(type_annotation_to_string(&TypeAnnotation::Optional(n())), "Optional_Number");
    assert_eq!(type_annotation_to_string(&TypeAnnotation::MapType), "Map");
}

fn subs(pairs: &[(&str, &str)]) -> Vec<(String, String)> {
    pairs.iter().map(|(a, b)| (a.to_string(), b.to_string())).collect()
}

#[test]
fn substitution_replaces_type_parameters() {
    let t = TypeAnnotation::Generic("T".to_string());
    let s = subs(&[("T", "Number")]);
    assert_eq!(substitute_type_annotation_helper(&t, &s), TypeAnnotation::Named("Number".to_string()));
}

#[test]
fn substitution_keeps_unknown_parameters_and_named_types() {
    let s = subs(&[("T", "Number")]);
    let u = TypeAnnotation::Generic("U".to_string());
    assert_eq!(substitute_type_annotation_helper(&u, &s), TypeAnnotation::Generic("U".to_string()));
    let n = TypeAnnotation::Named("T".to_string());
    assert_eq!(substitute_type_annotation_helper(&n, &s), TypeAnnotation::Named("T".to_string()));
    assert_eq!(substitute_type_annotation_helper(&TypeAnnotation::MapType, &s), TypeAnnotation::MapType);
}

#[test]
fn substitution_reaches_nested_types() {
    let s = subs(&[("T", "Number"), ("U", "Text"), ("T", "Truth")]);
    let t = TypeAnnotation::Function {
        param_types: vec![
            TypeAnnotation::List(Box::new(TypeAnnotation::Generic("T".to_string()))),
            TypeAnnotation::Parametrized {
                name: "Pair".to_string(),
                type_args: vec![TypeAnnotation::Generic("U".to_string()), TypeAnnotation::Generic("V".to_string())],
            },
        ],
        return_type: Box::new(TypeAnnotation::Optional(Box::new(TypeAnnotation::Borrowed {
            lifetime: Some(Lifetime::new("a")),
            inner: Box::new(TypeAnnotation::Generic("T".to_string())),
            mutable: true,
        }))),
    };
    let expected = TypeAnnotation::Function {
        param_types: vec![
            TypeAnnotation::List(Box::new(TypeAnnotation::Named("Number".to_string()))),
            TypeAnnotation::Parametrized {
                name: "Pair".to_string(),
                type_args: vec![TypeAnnotation::Named("Text".to_string()), TypeAnnotation::Generic("V".to_string())],
            },
        ],
        return_type: Box::new(TypeAnnotation::Optional(Box::new(TypeAnnotation::Borrowed {
            lifetime: Some(Lifetime::new("a")),
            inner: Box::new(TypeAnnotation::Named("Number".to_string())),
            mutable: true,
        }))),
    };
    assert_eq!(substitute_type_annotation_helper(&t, &s), expected);
}

fn identity_def(name: &str, span: SourceSpan) -> AstNode {
    AstNode::ChantDef {
        name: name.to_string(),
        type_params: vec!["T".to_string()],
        lifetime_params: vec![],
        params: vec![Parameter {
            name: "x".to_string(),
            typ: Some(TypeAnnotation::Generic("T".to_string())),
            is_variadic: false,
            borrow_mode: BorrowMode::Owned,
            lifetime: None,
        }],
        return_type: Some(TypeAnnotation::Generic("T".to_string())),
        body: vec![AstNode::YieldStmt {
            value: Box::new(AstNode::Ident { name: "x".to_string(), span }),
            span,
        }],
        span,
    }
}

fn generic_call(name: &str, type_arg: &str, arg: AstNode, span: SourceSpan) -> AstNode {
    AstNode::Call {
        callee: Box::new(AstNode::Ident { name: name.to_string(), span }),
        type_args: vec![TypeAnnotation::Named(type_arg.to_string())],
        args: vec![arg],
        span,
    }
}

#[test]
fn test_monomorphize_simple_identity() {
    let dummy_span = SourceSpan::unknown();

    let ast = vec![
        identity_def("identity", dummy_span),
        AstNode::ExprStmt {
            expr: Box::new(generic_call(
                "identity",
                "Number",
                AstNode::Number { value: "42".to_string(), span: dummy_span },
                dummy_span,
            )),
            span: dummy_span,
        },
    ];

    let mut mono = Monomorphizer::new();
    let result = mono.monomorphize(&ast);

    // Should have specialized function + transformed call
    assert_eq!(result.len(), 2);

    // First should be specialized function
    if let AstNode::ChantDef { name, type_params, params, .. } = &result[0] {
        assert_eq!(name, "identity_Number");
        assert!(type_params.is_empty());
        assert_eq!(params[0].typ, Some(TypeAnnotation::Named("Number".to_string())));
    } else {
        panic!("Expected specialized ChantDef");
    }

    // Second should be transformed call
    if let AstNode::ExprStmt { expr, .. } = &result[1] {
        if let AstNode::Call { callee, type_args, .. } = &**expr {
            if let AstNode::Ident { name, .. } = &**callee {
                assert_eq!(name, "identity_Number");
                assert!(type_args.is_empty());
            } else {
                panic!("Expected Ident callee");
            }
        } else {
            panic!("Expected Call");
        }
    } else {
        panic!("Expected ExprStmt");
    }
}

#[test]
fn specialized_functions_come_in_instantiation_order_once_each() {
    let s = SourceSpan::unknown();
    let text = || AstNode::Text { value: "hi".to_string(), span: s };
    let num = || AstNode::Number { value: "1".to_string(), span: s };
    let ast = vec![
        identity_def("identity", s),
        AstNode::ExprStmt { expr: Box::new(generic_call("identity", "Text", text(), s)), span: s },
        AstNode::ExprStmt { expr: Box::new(generic_call("identity", "Number", num(), s)), span: s },
        AstNode::ExprStmt { expr: Box::new(generic_call("identity", "Text", text(), s)), span: s },
    ];
    let result = Monomorphizer::new().monomorphize(&ast);
    assert_eq!(result.len(), 5);
    let names: Vec<String> = result[..2]
        .iter()
        .map(|n| match n {
            AstNode::ChantDef { name, .. } => name.clone(),
            _ => panic!("expected a chant"),
        })
        .collect();
    assert_eq!(names, vec!["identity_Number".to_string(), "identity_Text".to_string()]);
    if let AstNode::ChantDef { return_type, body, .. } = &result[1] {
        assert_eq!(*return_type, Some(TypeAnnotation::Named("Text".to_string())));
        assert_eq!(body.len(), 1);
    }
}

#[test]
fn calls_of_unknown_functions_are_kept() {
    let s = SourceSpan::unknown();
    let call = generic_call("missing", "Number", AstNode::Number { value: "1".to_string(), span: s }, s);
    let ast = vec![AstNode::ExprStmt { expr: Box::new(call), span: s }];
    let result = Monomorphizer::new().monomorphize(&ast);
    assert_eq!(result, ast);
}

#[test]
fn a_program_without_generics_is_unchanged() {
    let s = SourceSpan::unknown();
    let ast = vec![
        AstNode::BindStmt {
            name: "x".to_string(),
            typ: None,
            value: Box::new(AstNode::Number { value: "3".to_string(), span: s }),
            span: s,
        },
        AstNode::ExprStmt { expr: Box::new(AstNode::Ident { name: "x".to_string(), span: s }), span: s },
    ];
    let result = Monomorphizer::new().monomorphize(&ast);
    assert_eq!(result, ast);
}

#[test]
fn instantiations_are_kept_for_later_programs() {
    let s = SourceSpan::unknown();
    let mut mono = Monomorphizer::new();
    let first = vec![
        identity_def("identity", s),
        AstNode::ExprStmt {
            expr: Box::new(generic_call("identity", "Number", AstNode::Number { value: "1".to_string(), span: s }, s)),
            span: s,
        },
    ];
    mono.monomorphize(&first);
    let later = mono.monomorphize(&[]);
    assert_eq!(later.len(), 1);
    assert!(matches!(&later[0], AstNode::ChantDef { name, .. } if name == "identity_Number"));
}
