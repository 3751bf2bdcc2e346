use minicc::ast::{Exp, Statement, Token};
use minicc::parse::{expect_identifier, expect_integer_literal, expect_token, parse};

#[test]
fn test_expect_token_success() {
    let tokens = vec![Token::IntKeyword];
    let mut pos: usize = 0;
    assert!(expect_token(&tokens, &mut pos, Token::IntKeyword).is_ok());
}

#[test]
fn test_expect_token_failure() {
    let tokens = vec![Token::ReturnKeyword];
    let mut pos: usize = 0;
    let result = expect_token(&tokens, &mut pos, Token::IntKeyword);
    assert!(result.is_err());
    assert_eq!(result.unwrap_err(), "Expected IntKeyword, found ReturnKeyword");
}

#[test]
fn test_expect_identifier_success() {
    let tokens = vec![Token::Identifier("myFunc".to_string())];
    let mut pos: usize = 0;
    let result = expect_identifier(&tokens, &mut pos);
    assert!(result.is_ok());
    assert_eq!(result.unwrap(), "myFunc".to_string());
}

#[test]
fn test_expect_identifier_failure() {
    let tokens = vec![Token::IntKeyword];
    let mut pos: usize = 0;
    let result = expect_identifier(&tokens, &mut pos);
    assert!(result.is_err());
    assert_eq!(result.unwrap_err(), "Expected identifier, found IntKeyword");
}

#[test]
fn test_expect_integer_literal_success() {
    let tokens = vec![Token::IntegerLiteral("42".to_string())];
    let mut pos: usize = 0;
    let result = expect_integer_literal(&tokens, &mut pos);
    assert!(result.is_ok());
    assert_eq!(result.unwrap(), 42);
}

#[test]
fn test_expect_integer_literal_failure() {
    let tokens = vec![Token::IntKeyword];
    let mut pos: usize = 0;
    let result = expect_integer_literal(&tokens, &mut pos);
    assert!(result.is_err());
    assert_eq!(result.unwrap_err(), "Expected integer literal, found IntKeyword");
}

#[test]
fn test_parse_valid_program() {
    let tokens = vec![
        Token::IntKeyword,
        Token::Identifier("main".to_string()),
        Token::OpenParenthesis,
        Token::CloseParenthesis,
        Token::OpenBrace,
        Token::ReturnKeyword,
        Token::IntegerLiteral("42".to_string()),
        Token::Semicolon,
        Token::CloseBrace,
    ];
    let result = parse(tokens);
    assert!(result.is_ok());
    let program = result.unwrap();
    assert_eq!(program.func.name, "main");
    if let Statement::Return(Exp::Const(value)) = program.func.body {
        assert_eq!(value, 42);
    } else {
        panic!("Expected return statement with constant value");
    }
}

#[test]
fn test_parse_invalid_program_unexpected_token() {
    let tokens = vec![
        Token::IntKeyword,
        Token::Identifier("main".to_string()),
        Token::OpenParenthesis,
        Token::CloseParenthesis,
        Token::OpenBrace,
        Token::ReturnKeyword,
        Token::IntKeyword, // Invalid token here
        Token::Semicolon,
        Token::CloseBrace,
    ];
    let result = parse(tokens);
    assert!(result.is_err());
    assert_eq!(result.unwrap_err(), "Expected integer literal, found IntKeyword");
}

#[test]
fn test_parse_invalid_program_extra_tokens() {
    let tokens = vec![
        Token::IntKeyword,
        Token::Identifier("main".to_string()),
        Token::OpenParenthesis,
        Token::CloseParenthesis,
        Token::OpenBrace,
        Token::ReturnKeyword,
        Token::IntegerLiteral("42".to_string()),
        Token::Semicolon,
        Token::CloseBrace,
        Token::Semicolon, // Extra token here
    ];
    let result = parse(tokens);
    assert!(result.is_err());
    assert_eq!(result.unwrap_err(), "Unexpected tokens after function declaration");
}

#[test]
fn test_parse_void_parameter_list() {
    let tokens = vec![
        Token::IntKeyword,
        Token::Identifier("main".to_string()),
        Token::OpenParenthesis,
        Token::Identifier("void".to_string()),
        Token::CloseParenthesis,
        Token::OpenBrace,
        Token::ReturnKeyword,
        Token::IntegerLiteral("7".to_string()),
        Token::Semicolon,
        Token::CloseBrace,
    ];
    let result = parse(tokens);
    assert!(result.is_ok());
    let program = result.unwrap();
    assert_eq!(program.func.name, "main");
    let Statement::Return(Exp::Const(value)) = program.func.body;
    assert_eq!(value, 7);
}

#[test]
fn test_parse_bad_parameter_list() {
    let tokens = vec![
        Token::IntKeyword,
        Token::Identifier("main".to_string()),
        Token::OpenParenthesis,
        Token::Semicolon,
        Token::CloseParenthesis,
    ];
    let result = parse(tokens);
    assert_eq!(result.unwrap_err(), "Expected 'void' or ')' after '('");
}

#[test]
fn test_parse_empty_token_sequence() {
    let result = parse(Vec::new());
    assert_eq!(
        result.unwrap_err(),
        "Expected IntKeyword, but found end of input"
    );
}

#[test]
fn test_integer_literal_at_i32_boundary() {
    let tokens = vec![Token::IntegerLiteral("2147483647".to_string())];
    let mut pos: usize = 0;
    assert_eq!(expect_integer_literal(&tokens, &mut pos).unwrap(), 2147483647);
}

#[test]
fn test_integer_literal_overflow_is_invalid() {
    let tokens = vec![Token::IntegerLiteral("2147483648".to_string())];
    let mut pos: usize = 0;
    let result = expect_integer_literal(&tokens, &mut pos);
    assert_eq!(result.unwrap_err(), "Invalid integer literal");
}

#[test]
fn test_integer_literal_malformed_is_invalid() {
    let tokens = vec![Token::IntegerLiteral("12x".to_string())];
    let mut pos: usize = 0;
    let result = expect_integer_literal(&tokens, &mut pos);
    assert_eq!(result.unwrap_err(), "Invalid integer literal");
}

#[test]
fn test_mismatch_message_shows_identifier_text() {
    let tokens = vec![Token::Identifier("abc".to_string())];
    let mut pos: usize = 0;
    let result = expect_token(&tokens, &mut pos, Token::OpenBrace);
    assert_eq!(
        result.unwrap_err(),
        "Expected OpenBrace, found Identifier(\"abc\")"
    );
}
