use relox::parser::{parse, parse_expression, parse_expression_at, Error};
use relox::statement::Statement;
use relox::token::{Literal as TokenLiteral, Token, TokenType};

fn num_token(value: f64) -> Token {
    Token {
        t: TokenType::Number,
        lexeme: String::new(),
        literal: Some(TokenLiteral::Number(value.to_bits())),
        line: 1,
    }
}

fn plain_token(t: TokenType, line: usize) -> Token {
    Token { t, lexeme: String::new(), literal: None, line }
}

#[test]
fn test_parse_literals_true() {
    let tokens = vec![Token {
        t: TokenType::True,
        lexeme: "true".to_owned(),
        literal: Some(TokenLiteral::Boolean(true)),
        line: 1,
    }];

    let tree = parse_expression(tokens).unwrap();

    assert_eq!("true", tree.display_string());
}

#[test]
fn test_parse_literals_false() {
    let tokens = vec![Token {
        t: TokenType::False,
        lexeme: "false".to_owned(),
        literal: Some(TokenLiteral::Boolean(false)),
        line: 1,
    }];

    let tree = parse_expression(tokens).unwrap();

    assert_eq!("false", tree.display_string());
}

#[test]
fn test_parse_literals_nil() {
    let tokens = vec![Token {
        t: TokenType::Nil,
        lexeme: "nil".to_owned(),
        literal: Some(TokenLiteral::Nil),
        line: 1,
    }];

    let tree = parse_expression(tokens).unwrap();

    assert_eq!("nil", tree.display_string());
}

#[test]
fn test_parse_literals_string() {
    let tokens = vec![Token {
        t: TokenType::String,
        lexeme: "foo".to_owned(),
        literal: Some(TokenLiteral::String("foo".to_owned())),
        line: 1,
    }];

    let tree = parse_expression(tokens).unwrap();

    assert_eq!("\"foo\"", tree.display_string());
}

#[test]
fn test_parse_literals_number() {
    let tokens = vec![Token {
        t: TokenType::Number,
        lexeme: "3.15".to_owned(),
        literal: Some(TokenLiteral::Number(3.15f64.to_bits())),
        line: 1,
    }];

    let tree = parse_expression(tokens).unwrap();

    assert_eq!("3.15", tree.display_string());
}

#[test]
fn test_primary_grouping() {
    let tokens = vec![
        plain_token(TokenType::LeftParen, 1),
        num_token(2.0),
        plain_token(TokenType::RightParen, 1),
    ];

    let tree = parse_expression(tokens).unwrap();

    assert_eq!("(group 2)", tree.display_string());
}

#[test]
fn test_unary_number() {
    let tokens = vec![plain_token(TokenType::Minus, 1), num_token(123.0)];

    let tree = parse_expression(tokens).unwrap();

    assert_eq!("(- 123)", tree.display_string());
}

#[test]
fn test_unary_boolean() {
    let tokens = vec![
        plain_token(TokenType::Bang, 1),
        Token {
            t: TokenType::True,
            lexeme: String::new(),
            literal: Some(TokenLiteral::Boolean(true)),
            line: 1,
        },
    ];

    let tree = parse_expression(tokens).unwrap();

    assert_eq!("(! true)", tree.display_string());
}

#[test]
fn test_binary() {
    let operators = vec![
        TokenType::Star,
        TokenType::Slash,
        TokenType::BangEqual,
        TokenType::EqualEqual,
        TokenType::Plus,
        TokenType::Minus,
        TokenType::Greater,
        TokenType::GreaterEqual,
        TokenType::Less,
        TokenType::LessEqual,
    ];

    for t in operators {
        let tokens = vec![num_token(4.0), plain_token(t, 1), num_token(2.0)];

        let tree = parse_expression(tokens).unwrap();

        assert_eq!(format!("({} 4 2)", t.display_string()), tree.display_string());
    }
}

#[test]
fn test_factor_unary() {
    let tokens = vec![
        num_token(4.0),
        plain_token(TokenType::Star, 1),
        plain_token(TokenType::Minus, 1),
        num_token(2.0),
    ];

    let tree = parse_expression(tokens).unwrap();

    assert_eq!("(* 4 (- 2))", tree.display_string());
}

#[test]
fn test_term_factor() {
    let tokens = vec![
        num_token(5.0),
        plain_token(TokenType::Plus, 1),
        num_token(4.0),
        plain_token(TokenType::Star, 1),
        num_token(2.0),
    ];

    let tree = parse_expression(tokens).unwrap();

    assert_eq!("(+ 5 (* 4 2))", tree.display_string());
}

#[test]
fn test_comparsion_term() {
    let tokens = vec![
        num_token(5.0),
        plain_token(TokenType::Greater, 1),
        num_token(4.0),
        plain_token(TokenType::Plus, 1),
        num_token(2.0),
    ];

    let tree = parse_expression(tokens).unwrap();

    assert_eq!("(> 5 (+ 4 2))", tree.display_string());
}

#[test]
fn test_right_paren_expected() {
    let tokens = vec![
        plain_token(TokenType::LeftParen, 2),
        Token {
            t: TokenType::Number,
            lexeme: String::new(),
            literal: Some(TokenLiteral::Number(3.0f64.to_bits())),
            line: 3,
        },
    ];

    let err = parse_expression(tokens).unwrap_err();
    assert_eq!(Error::RightParenExpected { line: 3 }, err);
}

#[test]
fn test_term_token_expected() {
    let tokens = vec![
        Token {
            t: TokenType::Number,
            lexeme: String::new(),
            literal: Some(TokenLiteral::Number(2.0f64.to_bits())),
            line: 2,
        },
        plain_token(TokenType::Plus, 3),
    ];

    let err = parse_expression(tokens).unwrap_err();
    assert_eq!(Error::ExpressionExpected { line: 3 }, err);
}

#[test]
fn test_token_unexpected() {
    let tokens = vec![Token {
        t: TokenType::Plus,
        lexeme: "+".to_owned(),
        literal: None,
        line: 3,
    }];

    let err = parse_expression(tokens).unwrap_err();
    assert_eq!(
        Error::UnexpectedToken { line: 3, lexeme: "+".to_owned() },
        err
    );
}

#[test]
fn test_equality_comparsion() {
    let tokens = vec![
        num_token(5.0),
        plain_token(TokenType::EqualEqual, 1),
        num_token(4.0),
        plain_token(TokenType::Greater, 1),
        num_token(2.0),
    ];

    let tree = parse_expression(tokens).unwrap();

    assert_eq!("(== 5 (> 4 2))", tree.display_string());
}

#[test]
fn test_syncronize_on_error_with_semicolon() {
    let stop_token = plain_token(TokenType::Number, 3);
    let tokens = vec![
        Token { t: TokenType::Plus, lexeme: "+".to_owned(), literal: None, line: 3 },
        plain_token(TokenType::Number, 3),
        plain_token(TokenType::Semicolon, 3),
        stop_token.clone(),
    ];

    let (res, next) = parse_expression_at(&tokens, 0);

    assert!(res.is_err());
    assert_eq!(3, next);
    assert_eq!(stop_token, tokens[next]);
}

#[test]
fn test_syncronize_on_error_with_fun() {
    let stop_token = plain_token(TokenType::Fun, 3);
    let tokens = vec![
        Token { t: TokenType::Plus, lexeme: "+".to_owned(), literal: None, line: 3 },
        plain_token(TokenType::Number, 3),
        stop_token.clone(),
    ];

    let (res, next) = parse_expression_at(&tokens, 0);

    assert!(res.is_err());
    assert_eq!(2, next);
    assert_eq!(stop_token, tokens[next]);
}

#[test]
fn parser_test_error_format() {
    assert_eq!(
        "[line 3] Error: expect ')' after expression",
        Error::RightParenExpected { line: 3 }.message()
    );
    assert_eq!(
        "[line 3] Error: unexpected token: \"foo\"",
        Error::UnexpectedToken { line: 3, lexeme: "foo".to_owned() }.message()
    );
    assert_eq!(
        "[line 3] Error: expression expected",
        Error::ExpressionExpected { line: 3 }.message()
    );
    assert_eq!(
        "[line 2] Error: expect ';' after value",
        Error::ExpectSemicolonAfterValue { line: 2 }.message()
    );
    assert_eq!(
        "[line 2] Error: expect ';' after expression",
        Error::ExpectSemicolonAfterExpression { line: 2 }.message()
    );
    assert_eq!(
        "[line 2] Error: expect ';' after variable declaration",
        Error::ExpectSemicolonAfterVariableDeclaration { line: 2 }.message()
    );
    assert_eq!(
        "[line 2] Error: expect variable name",
        Error::ExpectVariableName { line: 2 }.message()
    );
}

fn scan(source: &str) -> Vec<Token> {
    relox::scanner::Scanner::new().scan_tokens(source.to_owned()).unwrap()
}

#[test]
fn parse_program_statements() {
    let statements = parse(scan("var x = 2; print x; x = 3;")).unwrap();
    assert_eq!(3, statements.len());
    assert!(matches!(statements[0], Statement::Var { .. }));
    assert!(matches!(statements[1], Statement::Print { .. }));
    assert!(matches!(statements[2], Statement::ExpressionStatement { .. }));
}

#[test]
fn parse_var_without_initializer() {
    let statements = parse(scan("var x;")).unwrap();
    assert_eq!(1, statements.len());
    match &statements[0] {
        Statement::Var { name, initializer } => {
            assert_eq!("x", name.lexeme);
            assert!(initializer.is_none());
        },
        _ => panic!("expected a declaration"),
    }
}

#[test]
fn parse_missing_semicolon_after_expression() {
    let err = parse(scan("1 + 2")).unwrap_err();
    assert_eq!(Error::ExpectSemicolonAfterExpression { line: 1 }, err);
}

#[test]
fn parse_missing_semicolon_after_value() {
    let err = parse(scan("print 1")).unwrap_err();
    assert_eq!(Error::ExpectSemicolonAfterValue { line: 1 }, err);
}

#[test]
fn parse_missing_semicolon_after_declaration() {
    let err = parse(scan("var x = 1")).unwrap_err();
    assert_eq!(Error::ExpectSemicolonAfterVariableDeclaration { line: 1 }, err);
}

#[test]
fn parse_missing_variable_name() {
    let err = parse(scan("var 1;")).unwrap_err();
    assert_eq!(Error::ExpectVariableName { line: 1 }, err);
}

#[test]
fn parse_assignment_is_right_associative() {
    let statements = parse(scan("x = y = 2;")).unwrap();
    assert_eq!(1, statements.len());
    match &statements[0] {
        Statement::ExpressionStatement { expr } => {
            assert_eq!("(assign x (assign y 2))", expr.display_string());
        },
        _ => panic!("expected an expression statement"),
    }
}
