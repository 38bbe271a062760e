use glimmer_weave::ast::TypeAnnotation;
use glimmer_weave::parser::{show_token, Parser};
use glimmer_weave::token::{PositionedToken, Span, Token};

fn positioned(tokens: Vec<Token>) -> Vec<PositionedToken> {
    tokens
        .into_iter()
        .enumerate()
        .map(|(i, token)| PositionedToken { token, span: Span::new(1, i + 1) })
        .collect()
}

fn ident(s: &str) -> Token {
    Token::Ident(s.to_string())
}

fn parse_type(tokens: Vec<Token>) -> Result<TypeAnnotation, (String, usize)> {
    let mut parser = Parser::new(positioned(tokens));
    parser.parse_type_annotation().map_err(|e| (e.message, e.position))
}

#[test]
fn named_and_generic_types() {
    assert_eq!(parse_type(vec![ident("Number")]), Ok(TypeAnnotation::Named("Number".to_string())));
    assert_eq!(parse_type(vec![ident("T")]), Ok(TypeAnnotation::Generic("T".to_string())));
    assert_eq!(parse_type(vec![ident("t")]), Ok(TypeAnnotation::Named("t".to_string())));
    assert_eq!(parse_type(vec![ident("Map")]), Ok(TypeAnnotation::MapType));
}

#[test]
fn list_of_one_type_is_a_list() {
    let toks = vec![ident("List"), Token::LeftAngle, ident("Number"), Token::RightAngle];
    assert_eq!(
        parse_type(toks),
        Ok(TypeAnnotation::List(Box::new(TypeAnnotation::Named("Number".to_string()))))
    );
}

#[test]
fn parametrized_types_nest() {
    let toks = vec![
        ident("Pair"),
        Token::LeftAngle,
        ident("T"),
        Token::Comma,
        ident("Box"),
        Token::LeftAngle,
        ident("Text"),
        Token::RightAngle,
        Token::RightAngle,
    ];
    assert_eq!(
        parse_type(toks),
        Ok(TypeAnnotation::Parametrized {
            name: "Pair".to_string(),
            type_args: vec![
                TypeAnnotation::Generic("T".to_string()),
                TypeAnnotation::Parametrized {
                    name: "Box".to_string(),
                    type_args: vec![TypeAnnotation::Named("Text".to_string())],
                },
            ],
        })
    );
}

#[test]
fn missing_type_name_is_an_error() {
    assert_eq!(parse_type(vec![Token::Comma]), Err(("Expected type name".to_string(), 0)));
    assert_eq!(parse_type(vec![]), Err(("Expected type name".to_string(), 0)));
    let toks = vec![ident("Box"), Token::LeftAngle, Token::RightAngle];
    assert_eq!(parse_type(toks), Err(("Expected type name".to_string(), 2)));
}

#[test]
fn unclosed_type_arguments_are_an_error() {
    let toks = vec![ident("Box"), Token::LeftAngle, ident("Number"), ident("x")];
    assert_eq!(
        parse_type(toks),
        Err(("Expected RightAngle, found Ident(\"x\")".to_string(), 3))
    );
    let toks = vec![ident("Box"), Token::LeftAngle, ident("Number")];
    assert_eq!(parse_type(toks), Err(("Expected RightAngle, found Eof".to_string(), 3)));
}

#[test]
fn tokens_are_shown_as_written_in_messages() {
    assert_eq!(show_token(&Token::Comma), "Comma");
    assert_eq!(show_token(&ident("abc")), "Ident(\"abc\")");
    assert_eq!(show_token(&Token::Text("hi".to_string())), "Text(\"hi\")");
}
