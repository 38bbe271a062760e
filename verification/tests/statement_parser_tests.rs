use glimmer_weave::ast::{AstNode, BinaryOperator, ErrorHandler, MatchArm, Parameter, Pattern, StructField, TypeAnnotation, VariantCase};
use glimmer_weave::lexer::Lexer;
use glimmer_weave::parser::Parser;
use glimmer_weave::source_location::{SourceLocation, SourceSpan};
use glimmer_weave::token::{PositionedToken, Span};

/// Token `i` of the source is given column `i + 1` on line 1.
fn program(source: &str) -> Result<Vec<AstNode>, (String, usize)> {
    let mut lexer = Lexer::new(source);
    let tokens: Vec<PositionedToken> = lexer
        .tokenize()
        .into_iter()
        .enumerate()
        .map(|(i, token)| PositionedToken { token, span: Span::new(1, i + 1) })
        .collect();
    Parser::new(tokens).parse().map_err(|e| (e.message, e.position))
}

/// The span of token `i`.
fn at(i: usize) -> SourceSpan {
    let loc = SourceLocation { line: 1, column: i + 1 };
    SourceSpan { start: loc, end: loc }
}

fn num(v: &str, i: usize) -> AstNode {
    AstNode::Number { value: v.to_string(), span: at(i) }
}

fn ident(n: &str, i: usize) -> AstNode {
    AstNode::Ident { name: n.to_string(), span: at(i) }
}

fn yield_at(value: AstNode, i: usize) -> AstNode {
    AstNode::YieldStmt { value: Box::new(value), span: at(i) }
}

fn named(n: &str) -> TypeAnnotation {
    TypeAnnotation::Named(n.to_string())
}

#[test]
fn empty_program_has_no_statements() {
    assert_eq!(program(""), Ok(vec![]));
    assert_eq!(program("\n\n"), Ok(vec![]));
}

#[test]
fn bind_statement() {
    // tokens: bind x to 42
    let expected = AstNode::BindStmt { name: "x".to_string(), typ: None, value: Box::new(num("42", 3)), span: at(0) };
    assert_eq!(program("bind x to 42"), Ok(vec![expected]));
}

#[test]
fn weave_statement_with_type() {
    // tokens: weave count : Number as 0
    let expected = AstNode::WeaveStmt {
        name: "count".to_string(),
        typ: Some(named("Number")),
        value: Box::new(num("0", 5)),
        span: at(0),
    };
    assert_eq!(program("weave count: Number as 0"), Ok(vec![expected]));
}

#[test]
fn set_statement() {
    // tokens: set x to 5
    let expected = AstNode::SetStmt { target: Box::new(ident("x", 1)), value: Box::new(num("5", 3)), span: at(0) };
    assert_eq!(program("set x to 5"), Ok(vec![expected]));
}

#[test]
fn statements_on_separate_lines() {
    // tokens: bind a to 1 \n \n bind b to 2
    let first = AstNode::BindStmt { name: "a".to_string(), typ: None, value: Box::new(num("1", 3)), span: at(0) };
    let second = AstNode::BindStmt { name: "b".to_string(), typ: None, value: Box::new(num("2", 9)), span: at(6) };
    assert_eq!(program("bind a to 1\n\nbind b to 2"), Ok(vec![first, second]));
}

#[test]
fn should_with_otherwise() {
    // tokens: should x then \n yield 1 \n otherwise \n yield 2 \n end
    let expected = AstNode::IfStmt {
        condition: Box::new(ident("x", 1)),
        then_branch: vec![yield_at(num("1", 5), 4)],
        else_branch: Some(vec![yield_at(num("2", 10), 9)]),
        span: at(0),
    };
    assert_eq!(program("should x then\nyield 1\notherwise\nyield 2\nend"), Ok(vec![expected]));
}

#[test]
fn should_without_otherwise() {
    // tokens: should x then yield 1 end
    let expected = AstNode::IfStmt {
        condition: Box::new(ident("x", 1)),
        then_branch: vec![yield_at(num("1", 4), 3)],
        else_branch: None,
        span: at(0),
    };
    assert_eq!(program("should x then yield 1 end"), Ok(vec![expected]));
}

#[test]
fn for_each_loop_with_break() {
    // tokens: for each item in items then \n break \n end
    let expected = AstNode::ForStmt {
        variable: "item".to_string(),
        iterable: Box::new(ident("items", 4)),
        body: vec![AstNode::Break { span: at(7) }],
        span: at(0),
    };
    assert_eq!(program("for each item in items then\nbreak\nend"), Ok(vec![expected]));
}

#[test]
fn whilst_loop_with_continue() {
    // tokens: whilst x then \n continue \n end
    let expected = AstNode::WhileStmt {
        condition: Box::new(ident("x", 1)),
        body: vec![AstNode::Continue { span: at(4) }],
        span: at(0),
    };
    assert_eq!(program("whilst x then\ncontinue\nend"), Ok(vec![expected]));
}

#[test]
fn chant_definition_with_parameters_and_return_type() {
    // tokens: chant add ( a as Number , b ) -> Number then \n yield a + b \n end <eof>
    let sum = AstNode::BinaryOp {
        left: Box::new(ident("a", 14)),
        op: BinaryOperator::Add,
        right: Box::new(ident("b", 16)),
        span: at(15),
    };
    let expected = AstNode::ChantDef {
        name: "add".to_string(),
        type_params: vec![],
        lifetime_params: vec![],
        params: vec![Parameter::typed("a".to_string(), named("Number")), Parameter::untyped("b".to_string())],
        return_type: Some(named("Number")),
        body: vec![yield_at(sum, 13)],
        span: at(19),
    };
    assert_eq!(program("chant add(a as Number, b) -> Number then\nyield a + b\nend"), Ok(vec![expected]));
}

#[test]
fn generic_chant_without_parameters() {
    // tokens: chant make < T > ( ) then end <eof>
    let expected = AstNode::ChantDef {
        name: "make".to_string(),
        type_params: vec!["T".to_string()],
        lifetime_params: vec![],
        params: vec![],
        return_type: None,
        body: vec![],
        span: at(9),
    };
    assert_eq!(program("chant make<T>() then end"), Ok(vec![expected]));
}

#[test]
fn form_definition() {
    // tokens: form Point with \n x as Number \n y as Number \n end <eof>
    let expected = AstNode::FormDef {
        name: "Point".to_string(),
        type_params: vec![],
        fields: vec![
            StructField { name: "x".to_string(), typ: named("Number") },
            StructField { name: "y".to_string(), typ: named("Number") },
        ],
        span: at(13),
    };
    assert_eq!(program("form Point with\nx as Number\ny as Number\nend"), Ok(vec![expected]));
}

#[test]
fn variant_definition_with_fields() {
    // tokens: variant Shape < T > then Circle ( r : T ) , Empty end <eof>
    let expected = AstNode::VariantDef {
        name: "Shape".to_string(),
        type_params: vec!["T".to_string()],
        variants: vec![
            VariantCase {
                name: "Circle".to_string(),
                fields: vec![Parameter::typed("r".to_string(), TypeAnnotation::Generic("T".to_string()))],
            },
            VariantCase { name: "Empty".to_string(), fields: vec![] },
        ],
        span: at(15),
    };
    assert_eq!(program("variant Shape<T> then Circle(r: T), Empty end"), Ok(vec![expected]));
}

#[test]
fn match_with_literal_enum_and_otherwise_arms() {
    // tokens: match x with \n when 1 then yield 1 \n when Circle ( v ) then yield v \n
    //         otherwise then yield 0 \n end <eof>
    let expected = AstNode::MatchStmt {
        value: Box::new(ident("x", 1)),
        arms: vec![
            MatchArm { pattern: Pattern::Literal(num("1", 5)), body: vec![yield_at(num("1", 8), 7)] },
            MatchArm {
                pattern: Pattern::Enum {
                    variant: "Circle".to_string(),
                    inner: Some(Box::new(Pattern::Ident("v".to_string()))),
                },
                body: vec![yield_at(ident("v", 17), 16)],
            },
            MatchArm { pattern: Pattern::Wildcard, body: vec![yield_at(num("0", 22), 21)] },
        ],
        span: at(25),
    };
    let source = "match x with\nwhen 1 then yield 1\nwhen Circle(v) then yield v\notherwise then yield 0\nend";
    assert_eq!(program(source), Ok(vec![expected]));
}

#[test]
fn multi_field_enum_pattern_holds_placeholders() {
    // tokens: match p with when Pair ( a , 2 ) then end <eof>
    let placeholders = AstNode::List {
        elements: vec![
            AstNode::Ident { name: "a".to_string(), span: SourceSpan::unknown() },
            AstNode::Nothing { span: SourceSpan::unknown() },
        ],
        span: SourceSpan::unknown(),
    };
    let expected = AstNode::MatchStmt {
        value: Box::new(ident("p", 1)),
        arms: vec![MatchArm {
            pattern: Pattern::Enum {
                variant: "Pair".to_string(),
                inner: Some(Box::new(Pattern::Literal(placeholders))),
            },
            body: vec![],
        }],
        span: at(12),
    };
    assert_eq!(program("match p with when Pair(a, 2) then end"), Ok(vec![expected]));
}

#[test]
fn outcome_patterns() {
    // tokens: match r with when Triumph ( v ) then end <eof>
    let expected = AstNode::MatchStmt {
        value: Box::new(ident("r", 1)),
        arms: vec![MatchArm {
            pattern: Pattern::Enum {
                variant: "Triumph".to_string(),
                inner: Some(Box::new(Pattern::Ident("v".to_string()))),
            },
            body: vec![],
        }],
        span: at(10),
    };
    assert_eq!(program("match r with when Triumph(v) then end"), Ok(vec![expected]));
}

#[test]
fn attempt_with_handler() {
    // tokens: attempt \n yield 1 \n harmonize on Failure then \n yield 2 \n end <eof>
    let expected = AstNode::AttemptStmt {
        body: vec![yield_at(num("1", 3), 2)],
        handlers: vec![ErrorHandler { error_type: "Failure".to_string(), body: vec![yield_at(num("2", 11), 10)] }],
        span: at(14),
    };
    assert_eq!(program("attempt\nyield 1\nharmonize on Failure then\nyield 2\nend"), Ok(vec![expected]));
}

#[test]
fn expression_statement_takes_the_span_after_it() {
    // tokens: x <eof>
    let expected = AstNode::ExprStmt { expr: Box::new(ident("x", 0)), span: at(1) };
    assert_eq!(program("x"), Ok(vec![expected]));
}

#[test]
fn statement_errors() {
    assert_eq!(program("bind 5 to 1"), Err(("Expected identifier after 'bind'".to_string(), 1)));
    assert_eq!(program("weave x to 1"), Err(("Expected As, found To".to_string(), 2)));
    assert_eq!(program("should x then\nyield 1"), Err(("Expected End, found Eof".to_string(), 6)));
    assert_eq!(program("for x in y then end"), Err(("Expected Each, found Ident(\"x\")".to_string(), 1)));
    assert_eq!(program("chant f(1) then end"), Err(("Expected parameter name".to_string(), 3)));
    assert_eq!(program("form P with\n5 as Number\nend"), Err(("Expected field name in struct definition".to_string(), 4)));
    assert_eq!(
        program("variant V then A(x: Number y: Number) end"),
        Err(("Expected ',' or ')' in variant field list".to_string(), 8)),
    );
    assert_eq!(program("match x with when + then end"), Err(("Expected pattern".to_string(), 4)));
    assert_eq!(program("attempt harmonize on 5 then end"), Err(("Expected error type after 'on'".to_string(), 3)));
}

#[test]
fn guide_programs_parse() {
    let hello = program("# hello.gw\n\"Hello, World!\"\n").expect("hello parses");
    assert_eq!(hello.len(), 1);
    assert!(matches!(&hello[0], AstNode::ExprStmt { expr, .. } if matches!(**expr, AstNode::Text { .. })));

    let factorial = "# factorial.gw\nchant factorial(n) then\n    should n <= 1 then\n        yield 1\n    otherwise\n        yield n * factorial(n - 1)\n    end\nend\n\nfactorial(5)  # Returns 120\n";
    let nodes = program(factorial).expect("factorial parses");
    assert_eq!(nodes.len(), 2);
    match &nodes[0] {
        AstNode::ChantDef { name, params, body, .. } => {
            assert_eq!(name, "factorial");
            assert_eq!(params.len(), 1);
            assert_eq!(body.len(), 1);
            assert!(matches!(&body[0], AstNode::IfStmt { else_branch: Some(_), .. }));
        },
        other => panic!("expected a chant definition, got {:?}", other),
    }
    assert!(matches!(&nodes[1], AstNode::ExprStmt { expr, .. } if matches!(**expr, AstNode::Call { .. })));

    let pipeline = "chant double(x) then yield x * 2 end\nchant add_one(x) then yield x + 1 end\n\n5 | double | add_one  # Returns 11\n";
    let nodes = program(pipeline).expect("pipeline parses");
    assert_eq!(nodes.len(), 3);
    assert!(matches!(&nodes[2], AstNode::ExprStmt { expr, .. } if matches!(**expr, AstNode::Pipeline { .. })));

    let variables = "bind name to \"Alice\"\nbind age to 30\nbind pi to 3.14159\n\nweave counter as 0\nset counter to counter + 1\n";
    let nodes = program(variables).expect("variables parse");
    assert_eq!(nodes.len(), 5);
    assert!(matches!(&nodes[3], AstNode::WeaveStmt { .. }));
    assert!(matches!(&nodes[4], AstNode::SetStmt { .. }));
}
