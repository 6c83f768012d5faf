use relox::error::RuntimeError;
use relox::expression::Expression;
use relox::interpreter::Interpreter;
use relox::token::{Literal as TokenLiteral, Token, TokenType};
use relox::value::Value;

fn interpret(expr: &Expression) -> Result<Value, RuntimeError> {
    let interpreter = Interpreter::new();
    interpreter.interpret(expr)
}

fn number(value: f64) -> TokenLiteral {
    TokenLiteral::Number(value.to_bits())
}

fn number_value(value: f64) -> Value {
    Value::Number(value.to_bits())
}

#[test]
fn interpret_literal() {
    let literals = vec![
        (TokenLiteral::Nil, Value::Nil),
        (TokenLiteral::Boolean(true), Value::Boolean(true)),
        (number(4.0), number_value(4.0)),
        (
            TokenLiteral::String("foo".to_owned()),
            Value::String("foo".to_owned()),
        ),
    ];

    for (literal, value) in literals {
        let expr = Expression::Literal { value: literal };
        assert_eq!(Ok(value), interpret(&expr));
    }
}

#[test]
fn interpret_number_negation() {
    let expr = Expression::Unary {
        operator: Token {
            t: TokenType::Minus,
            line: 1,
            lexeme: "-".to_owned(),
            literal: None,
        },
        right: Box::new(Expression::Literal { value: number(2.0) }),
    };
    assert_eq!(Ok(number_value(-2.0)), interpret(&expr));
}

#[test]
fn interpret_bool_negation() {
    let expr = Expression::Unary {
        operator: Token {
            t: TokenType::Bang,
            line: 1,
            lexeme: "!".to_owned(),
            literal: None,
        },
        right: Box::new(Expression::Literal { value: TokenLiteral::Boolean(true) }),
    };
    assert_eq!(Ok(Value::Boolean(false)), interpret(&expr));
}

#[test]
fn interpret_negation_invalid_type() {
    let literals = vec![
        TokenLiteral::Nil,
        TokenLiteral::String("foo".to_owned()),
        TokenLiteral::Boolean(true),
    ];
    for literal in literals {
        let operator = Token {
            t: TokenType::Minus,
            line: 1,
            lexeme: String::new(),
            literal: None,
        };
        let expr = Expression::Unary {
            operator: operator.clone(),
            right: Box::new(Expression::Literal { value: literal }),
        };
        assert_eq!(
            Err(RuntimeError::OperandMustBeANumber { token: operator.clone() }),
            interpret(&expr)
        );
    }
}

#[test]
fn interpret_bang() {
    let literals = vec![
        (TokenLiteral::Nil, true),
        (TokenLiteral::String("foo".to_owned()), false),
        (number(2.0), false),
        (TokenLiteral::Boolean(true), false),
        (TokenLiteral::Boolean(false), true),
    ];
    for (literal, result) in literals {
        let expr = Expression::Unary {
            operator: Token {
                t: TokenType::Bang,
                line: 1,
                lexeme: String::new(),
                literal: None,
            },
            right: Box::new(Expression::Literal { value: literal }),
        };
        assert_eq!(Ok(Value::Boolean(result)), interpret(&expr));
    }
}

#[test]
fn interpret_grouping() {
    let expr = Expression::Grouping {
        expr: Box::new(Expression::Unary {
            operator: Token {
                t: TokenType::Bang,
                line: 1,
                lexeme: String::new(),
                literal: None,
            },
            right: Box::new(Expression::Literal { value: TokenLiteral::Boolean(true) }),
        }),
    };
    assert_eq!(Ok(Value::Boolean(false)), interpret(&expr));
}

#[test]
fn interpret_numbers_operations() {
    let data = vec![
        (TokenType::Plus, 20.0),
        (TokenType::Minus, 10.0),
        (TokenType::Star, 75.0),
        (TokenType::Slash, 3.0),
    ];

    for (token_type, result) in data {
        let expr = Expression::Binary {
            left: Box::new(Expression::Literal { value: number(15.0) }),
            operator: Token {
                t: token_type,
                line: 1,
                lexeme: String::new(),
                literal: None,
            },
            right: Box::new(Expression::Literal { value: number(5.0) }),
        };
        assert_eq!(Ok(number_value(result)), interpret(&expr));
    }
}

#[test]
fn interpret_numbers_operations_with_invalid_operand() {
    let data = vec![
        TokenType::Minus,
        TokenType::Star,
        TokenType::Slash,
        TokenType::Greater,
        TokenType::GreaterEqual,
        TokenType::Less,
        TokenType::LessEqual,
    ];

    for token_type in data {
        let operands = vec![
            (number(15.0), TokenLiteral::Nil),
            (number(15.0), TokenLiteral::String("foo".to_owned())),
            (number(15.0), TokenLiteral::Boolean(true)),
        ];

        for (left, right) in operands {
            let operator = Token {
                t: token_type,
                line: 1,
                lexeme: String::new(),
                literal: None,
            };
            let expr = Expression::Binary {
                left: Box::new(Expression::Literal { value: left }),
                operator: operator.clone(),
                right: Box::new(Expression::Literal { value: right }),
            };
            assert_eq!(
                Err(RuntimeError::OperandsMustBeNumbers { token: operator.clone() }),
                interpret(&expr)
            );
        }
    }
}

#[test]
fn interpret_addition_with_invalid_operand() {
    let operands = vec![
        // number with others
        (number(15.0), TokenLiteral::Nil),
        (number(15.0), TokenLiteral::Boolean(true)),
        (number(15.0), TokenLiteral::String("foo".to_owned())),
        // string with others
        (TokenLiteral::String("foo".to_owned()), TokenLiteral::Boolean(true)),
        (TokenLiteral::String("foo".to_owned()), TokenLiteral::Nil),
        (TokenLiteral::String("foo".to_owned()), number(2.0)),
    ];

    for (left, right) in operands {
        let operator = Token {
            t: TokenType::Plus,
            line: 1,
            lexeme: String::new(),
            literal: None,
        };
        let expr = Expression::Binary {
            left: Box::new(Expression::Literal { value: left }),
            operator: operator.clone(),
            right: Box::new(Expression::Literal { value: right }),
        };
        assert_eq!(
            Err(RuntimeError::OperandsMustBeTwoNumbersOrTwoStrings { token: operator.clone() }),
            interpret(&expr)
        );
    }
}

#[test]
fn interpret_numbers_comparsion() {
    let data = vec![
        (TokenType::Greater, 2.0, 3.0, false),
        (TokenType::Greater, 3.0, 3.0, false),
        (TokenType::Greater, 4.0, 3.0, true),
        (TokenType::GreaterEqual, 2.0, 3.0, false),
        (TokenType::GreaterEqual, 3.0, 3.0, true),
        (TokenType::GreaterEqual, 4.0, 3.0, true),
        (TokenType::Less, 2.0, 3.0, true),
        (TokenType::Less, 3.0, 3.0, false),
        (TokenType::Less, 4.0, 3.0, false),
        (TokenType::LessEqual, 2.0, 3.0, true),
        (TokenType::LessEqual, 3.0, 3.0, true),
        (TokenType::LessEqual, 4.0, 3.0, false),
        (TokenType::EqualEqual, 2.0, 3.0, false),
        (TokenType::EqualEqual, 3.0, 3.0, true),
        (TokenType::EqualEqual, 4.0, 3.0, false),
        (TokenType::BangEqual, 2.0, 3.0, true),
        (TokenType::BangEqual, 3.0, 3.0, false),
        (TokenType::BangEqual, 4.0, 3.0, true),
    ];

    for (token_type, left, right, result) in data {
        let expr = Expression::Binary {
            left: Box::new(Expression::Literal { value: number(left) }),
            operator: Token {
                t: token_type,
                line: 1,
                lexeme: String::new(),
                literal: None,
            },
            right: Box::new(Expression::Literal { value: number(right) }),
        };
        assert_eq!(Ok(Value::Boolean(result)), interpret(&expr));
    }
}

#[test]
fn interpret_strings_addition() {
    let expr = Expression::Binary {
        left: Box::new(Expression::Literal {
            value: TokenLiteral::String("foo".to_owned()),
        }),
        operator: Token {
            t: TokenType::Plus,
            line: 1,
            lexeme: "+".to_owned(),
            literal: None,
        },
        right: Box::new(Expression::Literal {
            value: TokenLiteral::String("bar".to_owned()),
        }),
    };
    assert_eq!(Ok(Value::String("foobar".to_owned())), interpret(&expr));
}

#[test]
fn interpret_literal_equality() {
    let data = vec![
        // nil with others
        (TokenLiteral::Nil, TokenLiteral::Nil, true),
        (TokenLiteral::Nil, TokenLiteral::Boolean(true), false),
        (TokenLiteral::Nil, number(2.0), false),
        (TokenLiteral::Nil, TokenLiteral::String("foo".to_owned()), false),
        // number with others
        (number(2.0), number(2.0), true),
        (number(3.0), number(2.0), false),
        (number(2.0), TokenLiteral::Nil, false),
        (number(2.0), TokenLiteral::Boolean(false), false),
        (number(2.0), TokenLiteral::String("foo".to_owned()), false),
        (TokenLiteral::Boolean(true), TokenLiteral::Boolean(true), true),
        (number(3.0), TokenLiteral::Boolean(true), false),
        // boolean with others
        (TokenLiteral::Boolean(true), TokenLiteral::Boolean(true), true),
        (TokenLiteral::Boolean(true), TokenLiteral::Boolean(false), false),
        (TokenLiteral::Boolean(true), TokenLiteral::Nil, false),
        (TokenLiteral::Boolean(true), number(2.0), false),
        (TokenLiteral::Boolean(true), TokenLiteral::String("foo".to_owned()), false),
        // string with others
        (
            TokenLiteral::String("foo".to_owned()),
            TokenLiteral::String("foo".to_owned()),
            true,
        ),
        (
            TokenLiteral::String("foo".to_owned()),
            TokenLiteral::String("bar".to_owned()),
            false,
        ),
        (TokenLiteral::String("foo".to_owned()), TokenLiteral::Nil, false),
        (TokenLiteral::String("foo".to_owned()), TokenLiteral::Boolean(true), false),
        (TokenLiteral::String("foo".to_owned()), number(2.0), false),
    ];

    for (left, right, true_result) in data {
        let operator = Token {
            t: TokenType::EqualEqual,
            line: 1,
            lexeme: String::new(),
            literal: None,
        };
        let expr = Expression::Binary {
            left: Box::new(Expression::Literal { value: left.clone() }),
            operator,
            right: Box::new(Expression::Literal { value: right.clone() }),
        };
        assert_eq!(Ok(Value::Boolean(true_result)), interpret(&expr));

        let operator = Token {
            t: TokenType::BangEqual,
            line: 1,
            lexeme: String::new(),
            literal: None,
        };
        let expr = Expression::Binary {
            left: Box::new(Expression::Literal { value: left }),
            operator,
            right: Box::new(Expression::Literal { value: right }),
        };
        assert_eq!(Ok(Value::Boolean(!true_result)), interpret(&expr));
    }
}
