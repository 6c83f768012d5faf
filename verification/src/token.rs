//! The token vocabulary produced by the scanner and consumed by the parser
//! and the interpreter.
//!
//! A number literal is carried as the bit pattern of an IEEE 754 binary64
//! value (see `crate::number`): the decoded value of a number lexeme is the
//! nearest binary64 value, and all later arithmetic works on such bit
//! patterns.
use vstd::prelude::*;
use vstd::string::StringExecFns;

use crate::number::number_display;
use crate::text::string_debug;

verus! {

/// The kind of a token.
#[derive(Debug, Copy, Clone, PartialEq, Eq, Structural)]
pub enum TokenType {
    LeftParen,
    RightParen,
    LeftBrace,
    RightBrace,
    Comma,
    Dot,
    Minus,
    Plus,
    Semicolon,
    Slash,
    Star,
    Bang,
    BangEqual,
    Equal,
    EqualEqual,
    Greater,
    GreaterEqual,
    Less,
    LessEqual,
    Identifier,
    String,
    Number,
    And,
    Class,
    Else,
    False,
    Fun,
    For,
    If,
    Nil,
    Or,
    Print,
    Return,
    Super,
    This,
    True,
    Var,
    While,
    Eof,
}

/// The display text of a token kind: its symbol, its keyword, or the name
/// of its class of lexemes.
pub open spec fn token_type_text(t: TokenType) -> Seq<char> {
    match t {
        TokenType::LeftParen => "("@,
        TokenType::RightParen => ")"@,
        TokenType::LeftBrace => "{"@,
        TokenType::RightBrace => "}"@,
        TokenType::Comma => ","@,
        TokenType::Dot => "."@,
        TokenType::Minus => "-"@,
        TokenType::Plus => "+"@,
        TokenType::Semicolon => ";"@,
        TokenType::Slash => "/"@,
        TokenType::Star => "*"@,
        TokenType::Bang => "!"@,
        TokenType::BangEqual => "!="@,
        TokenType::Equal => "="@,
        TokenType::EqualEqual => "=="@,
        TokenType::Greater => ">"@,
        TokenType::GreaterEqual => ">="@,
        TokenType::Less => "<"@,
        TokenType::LessEqual => "<="@,
        TokenType::Identifier => "identifier"@,
        TokenType::String => "string"@,
        TokenType::Number => "number"@,
        TokenType::And => "and"@,
        TokenType::Class => "class"@,
        TokenType::Else => "else"@,
        TokenType::False => "false"@,
        TokenType::Fun => "fun"@,
        TokenType::For => "for"@,
        TokenType::If => "if"@,
        TokenType::Nil => "nil"@,
        TokenType::Or => "or"@,
        TokenType::Print => "print"@,
        TokenType::Return => "return"@,
        TokenType::Super => "super"@,
        TokenType::This => "this"@,
        TokenType::True => "true"@,
        TokenType::Var => "var"@,
        TokenType::While => "while"@,
        TokenType::Eof => "eof"@,
    }
}

impl TokenType {
    /// Render the token kind's display text.
    pub fn display_string(&self) -> (r: String)
        ensures
            r@ == token_type_text(*self),
    {
        let text: &str = match self {
            TokenType::LeftParen => "(",
            TokenType::RightParen => ")",
            TokenType::LeftBrace => "{",
            TokenType::RightBrace => "}",
            TokenType::Comma => ",",
            TokenType::Dot => ".",
            TokenType::Minus => "-",
            TokenType::Plus => "+",
            TokenType::Semicolon => ";",
            TokenType::Slash => "/",
            TokenType::Star => "*",
            TokenType::Bang => "!",
            TokenType::BangEqual => "!=",
            TokenType::Equal => "=",
            TokenType::EqualEqual => "==",
            TokenType::Greater => ">",
            TokenType::GreaterEqual => ">=",
            TokenType::Less => "<",
            TokenType::LessEqual => "<=",
            TokenType::Identifier => "identifier",
            TokenType::String => "string",
            TokenType::Number => "number",
            TokenType::And => "and",
            TokenType::Class => "class",
            TokenType::Else => "else",
            TokenType::False => "false",
            TokenType::Fun => "fun",
            TokenType::For => "for",
            TokenType::If => "if",
            TokenType::Nil => "nil",
            TokenType::Or => "or",
            TokenType::Print => "print",
            TokenType::Return => "return",
            TokenType::Super => "super",
            TokenType::This => "this",
            TokenType::True => "true",
            TokenType::Var => "var",
            TokenType::While => "while",
            TokenType::Eof => "eof",
        };
        String::from_str(text)
    }
}

/// The decoded literal carried by some tokens. `Number` holds the bit
/// pattern of the binary64 value the lexeme denotes.
#[derive(Debug, Clone, PartialEq)]
pub enum Literal {
    Nil,
    Boolean(bool),
    Number(u64),
    String(String),
    Identifier(String),
}

/// Mathematical model of a `Literal`: text is a sequence of characters.
pub enum LiteralModel {
    Nil,
    Boolean(bool),
    Number(u64),
    Str(Seq<char>),
    Identifier(Seq<char>),
}

impl View for Literal {
    type V = LiteralModel;

    open spec fn view(&self) -> LiteralModel {
        match self {
            Literal::Nil => LiteralModel::Nil,
            Literal::Boolean(b) => LiteralModel::Boolean(*b),
            Literal::Number(bits) => LiteralModel::Number(*bits),
            Literal::String(s) => LiteralModel::Str(s@),
            Literal::Identifier(s) => LiteralModel::Identifier(s@),
        }
    }
}

/// The display text of a literal: `nil`, `true`/`false`, the number's
/// shortest decimal form, the debug-quoted string, or the identifier's name.
pub open spec fn literal_text(l: LiteralModel) -> Seq<char> {
    match l {
        LiteralModel::Nil => "nil"@,
        LiteralModel::Boolean(b) => if b { "true"@ } else { "false"@ },
        LiteralModel::Number(bits) => number_display(bits),
        LiteralModel::Str(s) => string_debug(s),
        LiteralModel::Identifier(s) => s,
    }
}

impl Literal {
    /// Render the literal's display text.
    pub fn display_string(&self) -> (r: String)
        ensures
            r@ == literal_text(self@),
    {
        match self {
            Literal::Nil => String::from_str("nil"),
            Literal::Boolean(b) => {
                if *b {
                    String::from_str("true")
                } else {
                    String::from_str("false")
                }
            },
            Literal::Number(bits) => crate::number::display_number(*bits),
            Literal::String(s) => crate::text::string_debug_exec(s.as_str()),
            Literal::Identifier(s) => s.clone(),
        }
    }

    /// An exact copy; written by hand so that verified callers know the
    /// copy equals the original.
    pub fn duplicate(&self) -> (r: Literal)
        ensures
            r@ == self@,
    {
        match self {
            Literal::Nil => Literal::Nil,
            Literal::Boolean(b) => Literal::Boolean(*b),
            Literal::Number(bits) => Literal::Number(*bits),
            Literal::String(s) => Literal::String(s.clone()),
            Literal::Identifier(s) => Literal::Identifier(s.clone()),
        }
    }
}

/// A classified lexeme: its kind, the exact source substring it was read
/// from, its decoded literal (if any), and its 1-based source line.
#[derive(Debug, Clone, PartialEq)]
pub struct Token {
    pub t: TokenType,
    pub lexeme: String,
    pub literal: Option<Literal>,
    pub line: usize,
}

/// Mathematical model of a `Token`.
pub struct TokenModel {
    pub t: TokenType,
    pub lexeme: Seq<char>,
    pub literal: Option<LiteralModel>,
    pub line: nat,
}

impl View for Token {
    type V = TokenModel;

    open spec fn view(&self) -> TokenModel {
        TokenModel {
            t: self.t,
            lexeme: self.lexeme@,
            literal: match &self.literal {
                Some(l) => Some(l@),
                None => None,
            },
            line: self.line as nat,
        }
    }
}

/// Whether the token can name a variable: it carries an identifier literal
/// holding the name.
pub open spec fn is_name_token(t: TokenModel) -> bool {
    match t.literal {
        Some(LiteralModel::Identifier(_)) => true,
        _ => false,
    }
}

/// The name a name token carries.
pub open spec fn name_of_token(t: TokenModel) -> Seq<char> {
    match t.literal {
        Some(LiteralModel::Identifier(s)) => s,
        _ => Seq::empty(),
    }
}

/// The display text of a token: its kind, then its literal where it has
/// one, else its lexeme.
pub open spec fn token_text(t: TokenModel) -> Seq<char> {
    match t.literal {
        Some(l) => token_type_text(t.t) + " "@ + literal_text(l),
        None => token_type_text(t.t) + " "@ + t.lexeme,
    }
}

impl Token {
    /// Render the token's display text.
    pub fn display_string(&self) -> (r: String)
        ensures
            r@ == token_text(self@),
    {
        let mut out = self.t.display_string();
        out.append(" ");
        match &self.literal {
            Some(l) => {
                let lit = l.display_string();
                out.append(lit.as_str());
            },
            None => {
                out.append(self.lexeme.as_str());
            },
        }
        out
    }

    /// An exact copy; written by hand so that verified callers know the
    /// copy equals the original.
    pub fn duplicate(&self) -> (r: Token)
        ensures
            r@ == self@,
    {
        Token {
            t: self.t,
            lexeme: self.lexeme.clone(),
            literal: match &self.literal {
                Some(l) => Some(l.duplicate()),
                None => None,
            },
            line: self.line,
        }
    }
}

} // verus!
