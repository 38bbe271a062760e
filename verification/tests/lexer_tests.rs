use glimmer_weave::lexer::Lexer;
use glimmer_weave::token::Token;

/// The numeric value of a number token.
fn num(t: &Token) -> f64 {
    match t {
        Token::Number(s) => s.parse::<f64>().unwrap(),
        _ => panic!("not a number token: {:?}", t),
    }
}

#[test]
fn test_keywords() {
    let source = "bind weave set to should then end";
    let mut lexer = Lexer::new(source);
    let tokens = lexer.tokenize();

    assert_eq!(tokens[0], Token::Bind);
    assert_eq!(tokens[1], Token::Weave);
    assert_eq!(tokens[2], Token::SetKeyword);
    assert_eq!(tokens[3], Token::To);
    assert_eq!(tokens[4], Token::Should);
    assert_eq!(tokens[5], Token::Then);
    assert_eq!(tokens[6], Token::End);
}

#[test]
fn test_numbers() {
    let source = "42 3.14 0 100.5";
    let mut lexer = Lexer::new(source);
    let tokens = lexer.tokenize();

    assert_eq!(num(&tokens[0]), 42.0);
    assert_eq!(num(&tokens[1]), 3.14);
    assert_eq!(num(&tokens[2]), 0.0);
    assert_eq!(num(&tokens[3]), 100.5);
}

#[test]
fn test_strings() {
    let source = r#""hello" "world" "test\nstring""#;
    let mut lexer = Lexer::new(source);
    let tokens = lexer.tokenize();

    assert_eq!(tokens[0], Token::Text("hello".to_string()));
    assert_eq!(tokens[1], Token::Text("world".to_string()));
    assert_eq!(tokens[2], Token::Text("test\nstring".to_string()));
}

#[test]
fn test_identifiers() {
    let source = "foo bar_baz _test name123";
    let mut lexer = Lexer::new(source);
    let tokens = lexer.tokenize();

    assert_eq!(tokens[0], Token::Ident("foo".to_string()));
    assert_eq!(tokens[1], Token::Ident("bar_baz".to_string()));
    assert_eq!(tokens[2], Token::Ident("_test".to_string()));
    assert_eq!(tokens[3], Token::Ident("name123".to_string()));
}

#[test]
fn test_operators() {
    let source = "+ - * / % > < |";
    let mut lexer = Lexer::new(source);
    let tokens = lexer.tokenize();

    assert_eq!(tokens[0], Token::Plus);
    assert_eq!(tokens[1], Token::Minus);
    assert_eq!(tokens[2], Token::Star);
    assert_eq!(tokens[3], Token::Slash);
    assert_eq!(tokens[4], Token::Percent);
    // < and > are only for type generics (List<Number>)
    assert_eq!(tokens[5], Token::RightAngle);
    assert_eq!(tokens[6], Token::LeftAngle);
    assert_eq!(tokens[7], Token::Pipe);
}

#[test]
fn test_delimiters() {
    let source = "( ) [ ] { } , : .";
    let mut lexer = Lexer::new(source);
    let tokens = lexer.tokenize();

    assert_eq!(tokens[0], Token::LeftParen);
    assert_eq!(tokens[1], Token::RightParen);
    assert_eq!(tokens[2], Token::LeftBracket);
    assert_eq!(tokens[3], Token::RightBracket);
    assert_eq!(tokens[4], Token::LeftBrace);
    assert_eq!(tokens[5], Token::RightBrace);
    assert_eq!(tokens[6], Token::Comma);
    assert_eq!(tokens[7], Token::Colon);
    assert_eq!(tokens[8], Token::Dot);
}

#[test]
fn test_is_not_keyword() {
    let source = "x is not y";
    let mut lexer = Lexer::new(source);
    let tokens = lexer.tokenize();

    assert_eq!(tokens[0], Token::Ident("x".to_string()));
    assert_eq!(tokens[1], Token::IsNot);
    assert_eq!(tokens[2], Token::Ident("y".to_string()));
}

#[test]
fn test_simple_program() {
    let source = r#"bind x to 42
bind name to "Elara"
should x greater than 40 then
    VGA.write("Large number")
end"#;

    let mut lexer = Lexer::new(source);
    let tokens = lexer.tokenize();

    // bind x to 42
    assert_eq!(tokens[0], Token::Bind);
    assert_eq!(tokens[1], Token::Ident("x".to_string()));
    assert_eq!(tokens[2], Token::To);
    assert_eq!(num(&tokens[3]), 42.0);
    assert_eq!(tokens[4], Token::Newline);

    // bind name to "Elara"
    assert_eq!(tokens[5], Token::Bind);
    assert_eq!(tokens[6], Token::Ident("name".to_string()));
    assert_eq!(tokens[7], Token::To);
    assert_eq!(tokens[8], Token::Text("Elara".to_string()));
    assert_eq!(tokens[9], Token::Newline);

    // should x greater than 40 then
    assert_eq!(tokens[10], Token::Should);
    assert_eq!(tokens[11], Token::Ident("x".to_string()));
    assert_eq!(tokens[12], Token::GreaterThan);
    assert_eq!(num(&tokens[13]), 40.0);
    assert_eq!(tokens[14], Token::Then);
}

#[test]
fn test_comments() {
    let source = r#"# This is a comment
bind x to 42  # inline comment
# Another comment"#;

    let mut lexer = Lexer::new(source);
    let tokens = lexer.tokenize();

    // Comments should be skipped
    assert_eq!(tokens[0], Token::Newline); // After first comment
    assert_eq!(tokens[1], Token::Bind);
    assert_eq!(tokens[2], Token::Ident("x".to_string()));
    assert_eq!(tokens[3], Token::To);
    assert_eq!(num(&tokens[4]), 42.0);
}
