use relox::scanner::{Error, Scanner};
use relox::token::{Literal, Token, TokenType};

#[test]
fn test_scan_comment() {
    let scanner = Scanner::new();
    let source = "// foo".to_owned();
    assert_eq!(
        Ok(vec![Token {
            t: TokenType::Eof,
            line: 1,
            lexeme: String::new(),
            literal: None,
        }]),
        scanner.scan_tokens(source)
    );
}

#[test]
fn test_parans() {
    let scanner = Scanner::new();
    assert_eq!(
        Ok(vec![
            Token { t: TokenType::LeftParen, line: 1, lexeme: "(".to_owned(), literal: None },
            Token { t: TokenType::RightParen, line: 1, lexeme: ")".to_owned(), literal: None },
            Token { t: TokenType::Eof, line: 1, lexeme: String::new(), literal: None }
        ]),
        scanner.scan_tokens("()".to_owned())
    );
}

#[test]
fn test_curly_braces() {
    let scanner = Scanner::new();
    let source = "{}".to_owned();
    assert_eq!(
        Ok(vec![
            Token { t: TokenType::LeftBrace, line: 1, lexeme: "{".to_owned(), literal: None },
            Token { t: TokenType::RightBrace, line: 1, lexeme: "}".to_owned(), literal: None },
            Token { t: TokenType::Eof, line: 1, lexeme: String::new(), literal: None }
        ]),
        scanner.scan_tokens(source)
    );
}

#[test]
fn test_signs() {
    let scanner = Scanner::new();
    let source = "+-*/".to_owned();
    assert_eq!(
        Ok(vec![
            Token { t: TokenType::Plus, line: 1, lexeme: "+".to_owned(), literal: None },
            Token { t: TokenType::Minus, line: 1, lexeme: "-".to_owned(), literal: None },
            Token { t: TokenType::Star, line: 1, lexeme: "*".to_owned(), literal: None },
            Token { t: TokenType::Slash, line: 1, lexeme: "/".to_owned(), literal: None },
            Token { t: TokenType::Eof, line: 1, lexeme: String::new(), literal: None }
        ]),
        scanner.scan_tokens(source)
    );
}

#[test]
fn test_comparators() {
    let scanner = Scanner::new();
    let source = "< <= > >= ! != = ==".to_owned();
    assert_eq!(
        Ok(vec![
            Token { t: TokenType::Less, line: 1, lexeme: "<".to_owned(), literal: None },
            Token { t: TokenType::LessEqual, line: 1, lexeme: "<=".to_owned(), literal: None },
            Token { t: TokenType::Greater, line: 1, lexeme: ">".to_owned(), literal: None },
            Token { t: TokenType::GreaterEqual, line: 1, lexeme: ">=".to_owned(), literal: None },
            Token { t: TokenType::Bang, line: 1, lexeme: "!".to_owned(), literal: None },
            Token { t: TokenType::BangEqual, line: 1, lexeme: "!=".to_owned(), literal: None },
            Token { t: TokenType::Equal, line: 1, lexeme: "=".to_owned(), literal: None },
            Token { t: TokenType::EqualEqual, line: 1, lexeme: "==".to_owned(), literal: None },
            Token { t: TokenType::Eof, line: 1, lexeme: String::new(), literal: None }
        ]),
        scanner.scan_tokens(source)
    );
}

#[test]
fn test_punctuation() {
    let scanner = Scanner::new();
    let source = ".,;".to_owned();
    assert_eq!(
        Ok(vec![
            Token { t: TokenType::Dot, line: 1, lexeme: ".".to_owned(), literal: None },
            Token { t: TokenType::Comma, line: 1, lexeme: ",".to_owned(), literal: None },
            Token { t: TokenType::Semicolon, line: 1, lexeme: ";".to_owned(), literal: None },
            Token { t: TokenType::Eof, line: 1, lexeme: String::new(), literal: None }
        ]),
        scanner.scan_tokens(source)
    );
}

#[test]
fn test_string_literal() {
    let scanner = Scanner::new();
    let source = "\"foo\"".to_owned();
    assert_eq!(
        Ok(vec![
            Token {
                t: TokenType::String,
                line: 1,
                lexeme: "\"foo\"".to_owned(),
                literal: Some(Literal::String("foo".to_owned())),
            },
            Token { t: TokenType::Eof, line: 1, lexeme: String::new(), literal: None }
        ]),
        scanner.scan_tokens(source)
    );
}

#[test]
fn test_integer_number() {
    let scanner = Scanner::new();
    let source = "123".to_owned();
    assert_eq!(
        Ok(vec![
            Token {
                t: TokenType::Number,
                line: 1,
                lexeme: "123".to_owned(),
                literal: Some(Literal::Number(123.0f64.to_bits())),
            },
            Token { t: TokenType::Eof, line: 1, lexeme: String::new(), literal: None }
        ]),
        scanner.scan_tokens(source)
    );
}

#[test]
fn test_real_number() {
    let scanner = Scanner::new();
    let source = "3.14".to_owned();
    assert_eq!(
        Ok(vec![
            Token {
                t: TokenType::Number,
                line: 1,
                lexeme: "3.14".to_owned(),
                literal: Some(Literal::Number(3.14f64.to_bits())),
            },
            Token { t: TokenType::Eof, line: 1, lexeme: String::new(), literal: None }
        ]),
        scanner.scan_tokens(source)
    );
}

#[test]
fn test_identifiers() {
    let scanner = Scanner::new();
    let source = "foo bar".to_owned();
    assert_eq!(
        Ok(vec![
            Token {
                t: TokenType::Identifier,
                line: 1,
                lexeme: "foo".to_owned(),
                literal: Some(Literal::Identifier("foo".to_owned())),
            },
            Token {
                t: TokenType::Identifier,
                line: 1,
                lexeme: "bar".to_owned(),
                literal: Some(Literal::Identifier("bar".to_owned())),
            },
            Token { t: TokenType::Eof, line: 1, lexeme: String::new(), literal: None }
        ]),
        scanner.scan_tokens(source)
    );
}

#[test]
fn test_keywords() {
    let source = "and
        class
        else
        for
        fun
        if
        or
        print
        return
        super
        this
        var
        while"
        .to_owned();

    let scanner = Scanner::new();
    assert_eq!(
        Ok(vec![
            Token {
                t: TokenType::And,
                line: 1,
                lexeme: "and".to_owned(),
                literal: Some(Literal::Identifier("and".to_owned())),
            },
            Token {
                t: TokenType::Class,
                line: 2,
                lexeme: "class".to_owned(),
                literal: Some(Literal::Identifier("class".to_owned())),
            },
            Token {
                t: TokenType::Else,
                line: 3,
                lexeme: "else".to_owned(),
                literal: Some(Literal::Identifier("else".to_owned())),
            },
            Token {
                t: TokenType::For,
                line: 4,
                lexeme: "for".to_owned(),
                literal: Some(Literal::Identifier("for".to_owned())),
            },
            Token {
                t: TokenType::Fun,
                line: 5,
                lexeme: "fun".to_owned(),
                literal: Some(Literal::Identifier("fun".to_owned())),
            },
            Token {
                t: TokenType::If,
                line: 6,
                lexeme: "if".to_owned(),
                literal: Some(Literal::Identifier("if".to_owned())),
            },
            Token {
                t: TokenType::Or,
                line: 7,
                lexeme: "or".to_owned(),
                literal: Some(Literal::Identifier("or".to_owned())),
            },
            Token {
                t: TokenType::Print,
                line: 8,
                lexeme: "print".to_owned(),
                literal: Some(Literal::Identifier("print".to_owned())),
            },
            Token {
                t: TokenType::Return,
                line: 9,
                lexeme: "return".to_owned(),
                literal: Some(Literal::Identifier("return".to_owned())),
            },
            Token {
                t: TokenType::Super,
                line: 10,
                lexeme: "super".to_owned(),
                literal: Some(Literal::Identifier("super".to_owned())),
            },
            Token {
                t: TokenType::This,
                line: 11,
                lexeme: "this".to_owned(),
                literal: Some(Literal::Identifier("this".to_owned())),
            },
            Token {
                t: TokenType::Var,
                line: 12,
                lexeme: "var".to_owned(),
                literal: Some(Literal::Identifier("var".to_owned())),
            },
            Token {
                t: TokenType::While,
                line: 13,
                lexeme: "while".to_owned(),
                literal: Some(Literal::Identifier("while".to_owned())),
            },
            Token { t: TokenType::Eof, line: 13, lexeme: String::new(), literal: None },
        ]),
        scanner.scan_tokens(source)
    );
}

#[test]
fn test_keyword_literals() {
    let source = "nil
        true
        false"
        .to_owned();

    let scanner = Scanner::new();
    assert_eq!(
        Ok(vec![
            Token {
                t: TokenType::Nil,
                line: 1,
                lexeme: "nil".to_owned(),
                literal: Some(Literal::Nil),
            },
            Token {
                t: TokenType::True,
                line: 2,
                lexeme: "true".to_owned(),
                literal: Some(Literal::Boolean(true)),
            },
            Token {
                t: TokenType::False,
                line: 3,
                lexeme: "false".to_owned(),
                literal: Some(Literal::Boolean(false)),
            },
            Token { t: TokenType::Eof, line: 3, lexeme: String::new(), literal: None },
        ]),
        scanner.scan_tokens(source)
    );
}

#[test]
fn test_unexpected_char() {
    let scanner = Scanner::new();
    let source = "?%".to_owned();
    assert_eq!(
        Err(Error::UnexpectedCharacterError { line: 1, c: '?' }),
        scanner.scan_tokens(source)
    );
}

#[test]
fn test_unterminated_string() {
    let scanner = Scanner::new();
    let source = "\"foo".to_owned();
    assert_eq!(
        Err(Error::UnterminatedStringError { line: 1 }),
        scanner.scan_tokens(source)
    );
}

#[test]
fn scanner_test_error_format() {
    assert_eq!(
        "[line 3] Error: unterminated string",
        Error::UnterminatedStringError { line: 3 }.message()
    );
    assert_eq!(
        "[line 4] Error: unexpected character '%'",
        Error::UnexpectedCharacterError { line: 4, c: '%' }.message()
    );
}

#[test]
fn scan_multiline_string_counts_lines() {
    let scanner = Scanner::new();
    let source = "\"a\nb\" foo".to_owned();
    assert_eq!(
        Ok(vec![
            Token {
                t: TokenType::String,
                line: 2,
                lexeme: "\"a\nb\"".to_owned(),
                literal: Some(Literal::String("a\nb".to_owned())),
            },
            Token {
                t: TokenType::Identifier,
                line: 2,
                lexeme: "foo".to_owned(),
                literal: Some(Literal::Identifier("foo".to_owned())),
            },
            Token { t: TokenType::Eof, line: 2, lexeme: String::new(), literal: None },
        ]),
        scanner.scan_tokens(source)
    );
}

#[test]
fn scan_number_with_trailing_dot_leaves_dot() {
    let scanner = Scanner::new();
    let source = "12.".to_owned();
    assert_eq!(
        Ok(vec![
            Token {
                t: TokenType::Number,
                line: 1,
                lexeme: "12".to_owned(),
                literal: Some(Literal::Number(12.0f64.to_bits())),
            },
            Token { t: TokenType::Dot, line: 1, lexeme: ".".to_owned(), literal: None },
            Token { t: TokenType::Eof, line: 1, lexeme: String::new(), literal: None },
        ]),
        scanner.scan_tokens(source)
    );
}

#[test]
fn rejoined_lexemes_reproduce_source() {
    let scanner = Scanner::new();
    let source = "var x = 1; // note\nprint \"a b\" + 2;";
    let tokens = scanner.scan_tokens(source.to_owned()).unwrap();
    let rejoined: String = tokens.iter().map(|t| t.lexeme.as_str()).collect();
    assert_eq!("varx=1;print\"a b\"+2;", rejoined);
}
