use minicc::ast::{LexError, Token};
use minicc::lex::lex;

#[test]
fn test_empty_file() {
    let tokens = lex("").unwrap();
    assert!(tokens.is_empty());
}

#[test]
fn test_single_tokens() {
    let tokens = lex("{ } ( ) ; int return - ~ !").unwrap();
    let expected = vec![
        Token::OpenBrace,
        Token::CloseBrace,
        Token::OpenParenthesis,
        Token::CloseParenthesis,
        Token::Semicolon,
        Token::IntKeyword,
        Token::ReturnKeyword,
        Token::Negation,
        Token::BitwiseComplement,
        Token::LogicalNegation,
    ];
    assert_eq!(tokens, expected);
}

#[test]
fn test_identifier_and_integer_literal() {
    let tokens = lex("foo 123").unwrap();
    let expected = vec![
        Token::Identifier("foo".to_string()),
        Token::IntegerLiteral("123".to_string()),
    ];
    assert_eq!(tokens, expected);
}

#[test]
fn test_mixed_tokens() {
    let tokens = lex("int main() { return 42; }").unwrap();
    let expected = vec![
        Token::IntKeyword,
        Token::Identifier("main".to_string()),
        Token::OpenParenthesis,
        Token::CloseParenthesis,
        Token::OpenBrace,
        Token::ReturnKeyword,
        Token::IntegerLiteral("42".to_string()),
        Token::Semicolon,
        Token::CloseBrace,
    ];
    assert_eq!(tokens, expected);
}

#[test]
fn test_comments() {
    let tokens =
        lex("int main() { // This is a comment\n return 42; /* This is another comment */ }")
            .unwrap();
    let expected = vec![
        Token::IntKeyword,
        Token::Identifier("main".to_string()),
        Token::OpenParenthesis,
        Token::CloseParenthesis,
        Token::OpenBrace,
        Token::ReturnKeyword,
        Token::IntegerLiteral("42".to_string()),
        Token::Semicolon,
        Token::CloseBrace,
    ];
    assert_eq!(tokens, expected);
}

#[test]
fn test_unexpected_character() {
    let result = lex("int main() { return 42 @; }");
    assert!(result.is_err());
}

#[test]
fn test_unexpected_character_is_reported() {
    let result = lex("int main() { return 42 @; }");
    assert_eq!(result.unwrap_err(), LexError::UnexpectedCharacter('@'));
}

#[test]
fn test_keyword_needs_word_boundary() {
    let tokens = lex("intx returning int0").unwrap();
    let expected = vec![
        Token::Identifier("intx".to_string()),
        Token::Identifier("returning".to_string()),
        Token::Identifier("int0".to_string()),
    ];
    assert_eq!(tokens, expected);
}

#[test]
fn test_void_lexes_as_identifier() {
    let tokens = lex("void").unwrap();
    assert_eq!(tokens, vec![Token::Identifier("void".to_string())]);
}

#[test]
fn test_character_after_slash_is_rejected() {
    let result = lex("1 / 2");
    assert_eq!(result.unwrap_err(), LexError::UnexpectedCharacter(' '));
}

#[test]
fn test_unterminated_block_comment_discards_rest() {
    let tokens = lex("int /* the rest } ; never ends").unwrap();
    assert_eq!(tokens, vec![Token::IntKeyword]);
}

#[test]
fn test_line_comment_without_newline() {
    let tokens = lex("return // trailing comment").unwrap();
    assert_eq!(tokens, vec![Token::ReturnKeyword]);
}

#[test]
fn test_digits_then_letters_split() {
    let tokens = lex("123abc").unwrap();
    let expected = vec![
        Token::IntegerLiteral("123".to_string()),
        Token::Identifier("abc".to_string()),
    ];
    assert_eq!(tokens, expected);
}
