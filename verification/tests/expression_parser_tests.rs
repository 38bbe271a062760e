use glimmer_weave::ast::{AstNode, BinaryOperator, QueryCondition, QueryOperator, TypeAnnotation, UnaryOperator};
use glimmer_weave::lexer::Lexer;
use glimmer_weave::parser::Parser;
use glimmer_weave::source_location::{SourceLocation, SourceSpan};
use glimmer_weave::token::{PositionedToken, Span};

/// Token `i` of the source is given column `i + 1` on line 1.
fn parser_for(source: &str) -> Parser {
    let mut lexer = Lexer::new(source);
    let tokens: Vec<PositionedToken> = lexer
        .tokenize()
        .into_iter()
        .enumerate()
        .map(|(i, token)| PositionedToken { token, span: Span::new(1, i + 1) })
        .collect();
    Parser::new(tokens)
}

fn parse(source: &str) -> Result<AstNode, (String, usize)> {
    parser_for(source).parse_expression().map_err(|e| (e.message, e.position))
}

/// The span of token `i`.
fn at(i: usize) -> SourceSpan {
    let loc = SourceLocation { line: 1, column: i + 1 };
    SourceSpan { start: loc, end: loc }
}

fn num(v: &str, i: usize) -> AstNode {
    AstNode::Number { value: v.to_string(), span: at(i) }
}

fn ident(n: &str, i: usize) -> AstNode {
    AstNode::Ident { name: n.to_string(), span: at(i) }
}

fn bin(left: AstNode, op: BinaryOperator, right: AstNode, i: usize) -> AstNode {
    AstNode::BinaryOp { left: Box::new(left), op, right: Box::new(right), span: at(i) }
}

#[test]
fn multiplication_binds_tighter_than_addition() {
    // tokens: 1 + 2 * 3
    let expected = bin(
        num("1", 0),
        BinaryOperator::Add,
        bin(num("2", 2), BinaryOperator::Mul, num("3", 4), 3),
        1,
    );
    assert_eq!(parse("1 + 2 * 3"), Ok(expected));
}

#[test]
fn subtraction_associates_to_the_left() {
    // tokens: 7 - 2 - 1
    let expected = bin(
        bin(num("7", 0), BinaryOperator::Sub, num("2", 2), 1),
        BinaryOperator::Sub,
        num("1", 4),
        3,
    );
    assert_eq!(parse("7 - 2 - 1"), Ok(expected));
}

#[test]
fn or_is_looser_than_and_and_takes_the_span_after_it() {
    // tokens: a or b and c
    let expected = bin(
        ident("a", 0),
        BinaryOperator::Or,
        bin(ident("b", 2), BinaryOperator::And, ident("c", 4), 4),
        2,
    );
    assert_eq!(parse("a or b and c"), Ok(expected));
}

#[test]
fn comparisons_and_negation() {
    // tokens: not x is -1
    // `not` takes a unary operand, so the comparison applies to `not x`.
    let parsed = parse("not x is -1").unwrap();
    let not_x = AstNode::UnaryOp { op: UnaryOperator::Not, operand: Box::new(ident("x", 1)), span: at(0) };
    let minus_one = AstNode::UnaryOp { op: UnaryOperator::Negate, operand: Box::new(num("1", 4)), span: at(3) };
    assert_eq!(parsed, bin(not_x, BinaryOperator::Equal, minus_one, 2));
    // tokens: a at least b
    assert_eq!(parse("a at least b"), Ok(bin(ident("a", 0), BinaryOperator::GreaterEq, ident("b", 2), 1)));
}

#[test]
fn postfix_chain_of_call_field_index_and_try() {
    // tokens: f ( 1 , 2 ) . name [ 0 ] ?
    let call = AstNode::Call {
        callee: Box::new(ident("f", 0)),
        type_args: vec![],
        args: vec![num("1", 2), num("2", 4)],
        span: at(1),
    };
    let field = AstNode::FieldAccess { object: Box::new(call), field: "name".to_string(), span: at(6) };
    let index = AstNode::IndexAccess { object: Box::new(field), index: Box::new(num("0", 9)), span: at(8) };
    let expected = AstNode::Try { expr: Box::new(index), span: at(11) };
    assert_eq!(parse("f(1, 2).name[0]?"), Ok(expected));
}

#[test]
fn generic_call_takes_the_span_after_its_parenthesis() {
    // tokens: identity < Number > ( 42 ) <eof>
    let expected = AstNode::Call {
        callee: Box::new(ident("identity", 0)),
        type_args: vec![TypeAnnotation::Named("Number".to_string())],
        args: vec![num("42", 5)],
        span: at(7),
    };
    assert_eq!(parse("identity<Number>(42)"), Ok(expected));
}

#[test]
fn struct_literals_with_and_without_type_arguments() {
    // tokens: Point { x : 1 , y : 2 }
    let expected = AstNode::StructLiteral {
        struct_name: "Point".to_string(),
        type_args: vec![],
        fields: vec![("x".to_string(), num("1", 4)), ("y".to_string(), num("2", 8))],
        span: at(1),
    };
    assert_eq!(parse("Point { x: 1, y: 2 }"), Ok(expected));
    // tokens: Box < T > { value : 1 }
    let expected = AstNode::StructLiteral {
        struct_name: "Box".to_string(),
        type_args: vec![TypeAnnotation::Generic("T".to_string())],
        fields: vec![("value".to_string(), num("1", 7))],
        span: at(4),
    };
    assert_eq!(parse("Box<T> { value: 1 }"), Ok(expected));
}

#[test]
fn brace_after_a_non_name_ends_the_expression() {
    // tokens: 1 { }
    assert_eq!(parse("1 { }"), Ok(num("1", 0)));
}

#[test]
fn list_map_and_pipeline() {
    // tokens: [ 1 , 2 ]
    let list = AstNode::List { elements: vec![num("1", 1), num("2", 3)], span: at(0) };
    assert_eq!(parse("[1, 2]"), Ok(list));
    // tokens: { a : 1 }
    let map = AstNode::MapLiteral { entries: vec![("a".to_string(), num("1", 3))], span: at(0) };
    assert_eq!(parse("{a: 1}"), Ok(map));
    // tokens: x | f | g
    let pipeline = AstNode::Pipeline { stages: vec![ident("x", 0), ident("f", 2), ident("g", 4)], span: at(1) };
    assert_eq!(parse("x | f | g"), Ok(pipeline));
}

#[test]
fn lists_allow_newlines() {
    // tokens: [ \n 1 , \n 2 \n ]
    let list = AstNode::List { elements: vec![num("1", 2), num("2", 5)], span: at(0) };
    assert_eq!(parse("[\n1,\n2\n]"), Ok(list));
}

#[test]
fn seek_range_and_outcomes() {
    // tokens: seek where age at least 18 and name is "x"
    let expected = AstNode::SeekExpr {
        conditions: vec![
            QueryCondition {
                field: "age".to_string(),
                operator: QueryOperator::GreaterEq,
                value: Box::new(num("18", 4)),
            },
            QueryCondition {
                field: "name".to_string(),
                operator: QueryOperator::Is,
                value: Box::new(AstNode::Text { value: "x".to_string(), span: at(8) }),
            },
        ],
        span: at(0),
    };
    assert_eq!(parse("seek where age at least 18 and name is \"x\""), Ok(expected));
    // tokens: range ( 1 , 10 )
    let range = AstNode::Range { start: Box::new(num("1", 2)), end: Box::new(num("10", 4)), span: at(0) };
    assert_eq!(parse("range(1, 10)"), Ok(range));
    // tokens: Triumph ( 1 )
    assert_eq!(parse("Triumph(1)"), Ok(AstNode::Triumph { value: Box::new(num("1", 2)), span: at(0) }));
    assert_eq!(parse("Absent"), Ok(AstNode::Absent { span: at(0) }));
}

#[test]
fn parenthesised_expression_is_its_inside() {
    // tokens: ( 1 + 2 ) * 3
    let expected = bin(
        bin(num("1", 1), BinaryOperator::Add, num("2", 3), 2),
        BinaryOperator::Mul,
        num("3", 6),
        5,
    );
    assert_eq!(parse("(1 + 2) * 3"), Ok(expected));
}

#[test]
fn expression_errors() {
    assert_eq!(parse("(1"), Err(("Expected RightParen, found Eof".to_string(), 2)));
    assert_eq!(parse("a."), Err(("Expected field name after '.'".to_string(), 2)));
    assert_eq!(parse("then"), Err(("Unexpected token: Then".to_string(), 0)));
    assert_eq!(parse("f<Number> + 1"), Err(("Expected '(' or '{' after type arguments".to_string(), 4)));
    assert_eq!(parse("1<Number> { }"), Err(("Type arguments can only be used with identifiers".to_string(), 4)));
    assert_eq!(parse("{1: 2}"), Err(("Expected identifier as map key".to_string(), 1)));
    assert_eq!(parse("P { 1: 2 }"), Err(("Expected field name in struct literal".to_string(), 2)));
    assert_eq!(parse("seek where a"), Err(("Expected comparison operator".to_string(), 3)));
}

#[test]
fn parser_stops_after_the_expression() {
    let mut parser = parser_for("1 + 2 then");
    assert!(parser.parse_expression().is_ok());
    // The next expression starts at `then`, which is not one.
    assert_eq!(
        parser.parse_expression().map_err(|e| (e.message, e.position)),
        Err(("Unexpected token: Then".to_string(), 3))
    );
}
