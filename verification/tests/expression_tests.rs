use relox::expression::{pretty_print, Expression};
use relox::token::{Literal as TokenLiteral, Token, TokenType};

fn number(value: f64) -> TokenLiteral {
    TokenLiteral::Number(value.to_bits())
}

#[test]
fn test_format_binary() {
    let expr = Expression::Binary {
        left: Box::new(Expression::Literal { value: number(2.0) }),
        operator: Token {
            t: TokenType::Plus,
            lexeme: "+".to_owned(),
            literal: None,
            line: 1,
        },
        right: Box::new(Expression::Literal { value: number(4.0) }),
    };
    assert_eq!(r"(+ 2 4)", expr.display_string());
}

#[test]
fn test_format_grouping() {
    let expr = Expression::Grouping {
        expr: Box::new(Expression::Literal { value: number(2.0) }),
    };
    assert_eq!(r"(group 2)", expr.display_string());
}

#[test]
fn test_format_literal() {
    let expr = Expression::Literal {
        value: TokenLiteral::Identifier("foo".to_owned()),
    };
    assert_eq!("foo", expr.display_string());
}

#[test]
fn test_format_unary() {
    let expr = Expression::Unary {
        operator: Token {
            t: TokenType::Minus,
            lexeme: String::new(),
            literal: None,
            line: 1,
        },
        right: Box::new(Expression::Literal { value: number(2.0) }),
    };
    assert_eq!("(- 2)", expr.display_string());
}

#[test]
fn test_format_composite_expression() {
    let expr = Expression::Binary {
        left: Box::new(Expression::Unary {
            operator: Token {
                t: TokenType::Minus,
                lexeme: "-".to_owned(),
                literal: None,
                line: 1,
            },
            right: Box::new(Expression::Literal { value: number(123.0) }),
        }),
        operator: Token {
            t: TokenType::Star,
            lexeme: "*".to_owned(),
            literal: None,
            line: 1,
        },
        right: Box::new(Expression::Grouping {
            expr: Box::new(Expression::Literal { value: number(45.67) }),
        }),
    };
    assert_eq!(r#"(* (- 123) (group 45.67))"#, expr.display_string());
}

#[test]
fn test_pretty_print() {
    let expr = Expression::Binary {
        left: Box::new(Expression::Unary {
            operator: Token {
                t: TokenType::Minus,
                lexeme: "-".to_owned(),
                literal: None,
                line: 1,
            },
            right: Box::new(Expression::Literal { value: number(123.0) }),
        }),
        operator: Token {
            t: TokenType::Star,
            lexeme: "*".to_owned(),
            literal: None,
            line: 1,
        },
        right: Box::new(Expression::Grouping {
            expr: Box::new(Expression::Literal { value: number(45.67) }),
        }),
    };
    assert_eq!("(* (- 123) (group 45.67))", pretty_print(&expr));
}

#[test]
fn format_variable_reference() {
    let expr = Expression::Variable {
        name: Token {
            t: TokenType::Identifier,
            lexeme: "foo".to_owned(),
            literal: Some(TokenLiteral::Identifier("foo".to_owned())),
            line: 1,
        },
    };
    assert_eq!("(var foo)", expr.display_string());
    assert_eq!("(var foo)", pretty_print(&expr));
}
