use relox::token::{Literal, Token, TokenType};

#[test]
fn literal_display() {
    assert_eq!("nil", Literal::Nil.display_string());
    assert_eq!("true", Literal::Boolean(true).display_string());
    assert_eq!("false", Literal::Boolean(false).display_string());
    assert_eq!("2", Literal::Number(2.0f64.to_bits()).display_string());
    assert_eq!("2.4", Literal::Number(2.4f64.to_bits()).display_string());
    assert_eq!("\"foo\"", Literal::String("foo".to_owned()).display_string());
    assert_eq!("foo", Literal::Identifier("foo".to_owned()).display_string());
}

#[test]
fn display_number() {
    assert_eq!(
        "number 2.3",
        Token {
            t: TokenType::Number,
            lexeme: "2.3".to_owned(),
            literal: Some(Literal::Number(2.3f64.to_bits())),
            line: 1,
        }
        .display_string()
    );
}

#[test]
fn token_type_display() {
    assert_eq!("(", TokenType::LeftParen.display_string());
    assert_eq!("!=", TokenType::BangEqual.display_string());
    assert_eq!("identifier", TokenType::Identifier.display_string());
    assert_eq!("eof", TokenType::Eof.display_string());
}

#[test]
fn token_display_without_literal() {
    assert_eq!(
        "+ +",
        Token { t: TokenType::Plus, lexeme: "+".to_owned(), literal: None, line: 3 }
            .display_string()
    );
}
