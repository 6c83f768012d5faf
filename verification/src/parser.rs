//! Recursive-descent parsing with panic-mode error recovery.
//!
//! The grammar, lowest to highest precedence, each binary level
//! left-associative:
//! `assignment > equality (== !=) > comparison (> >= < <=) > term (+ -)
//! > factor (* /) > unary (! -, prefix, right-associative) > primary`.
//!
//! The parser's behaviour is specified by the `spec_parse_*` functions over
//! the token models; the executable parser is proved to return exactly what
//! they say, including which error comes on which input and where parsing
//! stops. `spec_synchronize` specifies panic-mode recovery: after an error,
//! tokens are discarded up to a semicolon (consumed) or a keyword that
//! begins a statement (left in place).
use vstd::prelude::*;
use vstd::string::StringExecFns;

use crate::expression::{Expression, ExpressionModel, wf_expression};
use crate::statement::{Statement, StatementModel, statements_view};
use crate::scanner::tokens_view;
use crate::token::{Token, TokenModel, TokenType};

verus! {

/// A syntax failure, carrying the source line it was noticed on.
#[derive(Debug, Clone, PartialEq)]
pub enum Error {
    RightParenExpected { line: usize },
    UnexpectedToken { line: usize, lexeme: String },
    ExpressionExpected { line: usize },
    ExpectSemicolonAfterValue { line: usize },
    ExpectSemicolonAfterExpression { line: usize },
    ExpectSemicolonAfterVariableDeclaration { line: usize },
    ExpectVariableName { line: usize },
}

/// Mathematical model of a parse error.
pub enum ParseErrorModel {
    RightParenExpected { line: nat },
    UnexpectedToken { line: nat, lexeme: Seq<char> },
    ExpressionExpected { line: nat },
    ExpectSemicolonAfterValue { line: nat },
    ExpectSemicolonAfterExpression { line: nat },
    ExpectSemicolonAfterVariableDeclaration { line: nat },
    ExpectVariableName { line: nat },
}

impl View for Error {
    type V = ParseErrorModel;

    open spec fn view(&self) -> ParseErrorModel {
        match self {
            Error::RightParenExpected { line } =>
                ParseErrorModel::RightParenExpected { line: *line as nat },
            Error::UnexpectedToken { line, lexeme } =>
                ParseErrorModel::UnexpectedToken { line: *line as nat, lexeme: lexeme@ },
            Error::ExpressionExpected { line } =>
                ParseErrorModel::ExpressionExpected { line: *line as nat },
            Error::ExpectSemicolonAfterValue { line } =>
                ParseErrorModel::ExpectSemicolonAfterValue { line: *line as nat },
            Error::ExpectSemicolonAfterExpression { line } =>
                ParseErrorModel::ExpectSemicolonAfterExpression { line: *line as nat },
            Error::ExpectSemicolonAfterVariableDeclaration { line } =>
                ParseErrorModel::ExpectSemicolonAfterVariableDeclaration { line: *line as nat },
            Error::ExpectVariableName { line } =>
                ParseErrorModel::ExpectVariableName { line: *line as nat },
        }
    }
}

/// The rendered form of a parse error.
pub open spec fn parse_error_text(e: ParseErrorModel) -> Seq<char> {
    match e {
        ParseErrorModel::RightParenExpected { line } =>
            crate::error::error_text(line, "expect ')' after expression"@),
        ParseErrorModel::UnexpectedToken { line, lexeme } =>
            crate::error::error_text(line, "unexpected token: "@ + crate::text::string_debug(lexeme)),
        ParseErrorModel::ExpressionExpected { line } =>
            crate::error::error_text(line, "expression expected"@),
        ParseErrorModel::ExpectSemicolonAfterValue { line } =>
            crate::error::error_text(line, "expect ';' after value"@),
        ParseErrorModel::ExpectSemicolonAfterExpression { line } =>
            crate::error::error_text(line, "expect ';' after expression"@),
        ParseErrorModel::ExpectSemicolonAfterVariableDeclaration { line } =>
            crate::error::error_text(line, "expect ';' after variable declaration"@),
        ParseErrorModel::ExpectVariableName { line } =>
            crate::error::error_text(line, "expect variable name"@),
    }
}

impl Error {
    /// Render the error as `[line N] Error: <message>`.
    pub fn message(&self) -> (r: String)
        ensures
            r@ == parse_error_text(self@),
    {
        match self {
            Error::RightParenExpected { line } =>
                crate::error::format_error(*line, "expect ')' after expression"),
            Error::UnexpectedToken { line, lexeme } => {
                let mut msg = String::from_str("unexpected token: ");
                let quoted = crate::text::string_debug_exec(lexeme.as_str());
                msg.append(quoted.as_str());
                crate::error::format_error(*line, msg.as_str())
            },
            Error::ExpressionExpected { line } =>
                crate::error::format_error(*line, "expression expected"),
            Error::ExpectSemicolonAfterValue { line } =>
                crate::error::format_error(*line, "expect ';' after value"),
            Error::ExpectSemicolonAfterExpression { line } =>
                crate::error::format_error(*line, "expect ';' after expression"),
            Error::ExpectSemicolonAfterVariableDeclaration { line } =>
                crate::error::format_error(*line, "expect ';' after variable declaration"),
            Error::ExpectVariableName { line } =>
                crate::error::format_error(*line, "expect variable name"),
        }
    }
}

/// Whether the token kind carries a decoded literal.
pub open spec fn literal_kind(t: TokenType) -> bool {
    ||| t == TokenType::True
    ||| t == TokenType::False
    ||| t == TokenType::Nil
    ||| t == TokenType::Number
    ||| t == TokenType::String
}

/// A token as the scanner hands it to the parser: a literal-kind token
/// carries its decoded (non-identifier) literal, and an identifier token
/// carries its name.
pub open spec fn parse_token_wf(t: TokenModel) -> bool {
    &&& literal_kind(t.t) ==> (t.literal is Some && !(t.literal->0 is Identifier))
    &&& t.t == TokenType::Identifier ==> crate::token::is_name_token(t)
}

/// Tokens as the scanner hands them to the parser: at least one token, each
/// well formed.
pub open spec fn wf_parse_tokens(ts: Seq<TokenModel>) -> bool {
    ts.len() > 0 && forall|i: int| 0 <= i < ts.len() ==> parse_token_wf(#[trigger] ts[i])
}

/// The scanner only produces tokens the parser is fit to consume.
pub proof fn lemma_scanned_tokens_wf(src: Seq<char>)
    requires
        crate::scanner::scan_text(src) is Ok,
    ensures
        wf_parse_tokens(crate::scanner::scan_text(src)->Ok_0),
{
    lemma_scan_from_wf(src, 0, 1);
}

/// The inductive heart of `lemma_scanned_tokens_wf`, from any position.
proof fn lemma_scan_from_wf(src: Seq<char>, pos: int, line: nat)
    requires
        0 <= pos <= src.len(),
        crate::scanner::scan_from(src, pos, line) is Ok,
    ensures
        wf_parse_tokens(crate::scanner::scan_from(src, pos, line)->Ok_0),
    decreases src.len() - pos,
{
    let ts = crate::scanner::scan_from(src, pos, line)->Ok_0;
    if pos >= src.len() {
        assert(ts == seq![crate::scanner::eof_token(line)]);
        assert(parse_token_wf(ts[0]));
    } else {
        crate::scanner::lemma_scan_step_in_range(src, pos, line);
        match crate::scanner::scan_step(src, pos, line) {
            crate::scanner::ScanStep::Fail(_) => {},
            crate::scanner::ScanStep::Skip(next, l2) => {
                lemma_scan_from_wf(src, next, l2);
            },
            crate::scanner::ScanStep::Token(tm, next, l2) => {
                lemma_scan_from_wf(src, next, l2);
                let rest = crate::scanner::scan_from(src, next, l2)->Ok_0;
                assert(parse_token_wf(tm));
                assert(ts == seq![tm] + rest);
                assert forall|i: int| 0 <= i < ts.len()
                    implies parse_token_wf(#[trigger] ts[i]) by {
                    if i > 0 {
                        assert(ts[i] == rest[i - 1]);
                    }
                }
            },
        }
    }
}

/// The line parsing is at: the line of the last consumed token (the first
/// token's line where nothing is consumed yet).
pub open spec fn tok_line(toks: Seq<TokenModel>, pos: int) -> nat {
    if toks.len() == 0 {
        1
    } else if pos <= 0 {
        toks[0].line
    } else if pos - 1 < toks.len() {
        toks[pos - 1].line
    } else {
        toks[toks.len() - 1].line
    }
}

/// Clamp a position into `(pos, len]` so that recursion on it is well
/// founded; the executable parser's bounds show the clamp never moves a
/// position the parser actually produces.
pub open spec fn step_pos(pos: int, next: int, len: int) -> int {
    if next <= pos { pos + 1 } else if next > len { len } else { next }
}

/// What parsing one construct yields: the construct and the position after
/// it, or an error and the position parsing stopped at.
pub type SpecParsed<T> = Result<(T, int), (ParseErrorModel, int)>;

/// Whether parsing stands at the end: past the tokens, or at the
/// end-of-stream token, which the expression grammar never consumes.
pub open spec fn at_end(toks: Seq<TokenModel>, pos: int) -> bool {
    pos < 0 || pos >= toks.len() || toks[pos].t == TokenType::Eof
}

/// Parse a primary expression: a literal, a parenthesized expression, or a
/// variable reference.
pub open spec fn spec_parse_primary(toks: Seq<TokenModel>, pos: int) -> SpecParsed<ExpressionModel>
    decreases toks.len() - pos, 1int, 0int,
{
    if at_end(toks, pos) {
        Err((ParseErrorModel::ExpressionExpected { line: tok_line(toks, pos) }, pos))
    } else {
        let tok = toks[pos];
        if literal_kind(tok.t) {
            match tok.literal {
                Some(l) => Ok((ExpressionModel::Literal { value: l }, pos + 1)),
                None => Err((ParseErrorModel::ExpressionExpected { line: tok.line }, pos + 1)),
            }
        } else if tok.t == TokenType::Identifier {
            Ok((ExpressionModel::Variable { name: tok }, pos + 1))
        } else if tok.t == TokenType::LeftParen {
            match spec_parse_expression(toks, step_pos(pos, pos + 1, toks.len() as int)) {
                Err(ep) => Err(ep),
                Ok((inner, q)) => {
                    if 0 <= q < toks.len() {
                        if toks[q].t == TokenType::RightParen {
                            Ok((ExpressionModel::Grouping { expr: Box::new(inner) }, q + 1))
                        } else {
                            Err((
                                ParseErrorModel::RightParenExpected {
                                    line: tok_line(toks, q + 1),
                                },
                                q + 1,
                            ))
                        }
                    } else {
                        Err((
                            ParseErrorModel::RightParenExpected { line: tok_line(toks, q) },
                            q,
                        ))
                    }
                },
            }
        } else {
            Err((
                ParseErrorModel::UnexpectedToken { line: tok.line, lexeme: tok.lexeme },
                pos + 1,
            ))
        }
    }
}

/// Parse a unary expression: `!` or `-` applied by recursion, else primary.
pub open spec fn spec_parse_unary(toks: Seq<TokenModel>, pos: int) -> SpecParsed<ExpressionModel>
    decreases toks.len() - pos, 2int, 0int,
{
    if 0 <= pos < toks.len() && (toks[pos].t == TokenType::Bang || toks[pos].t == TokenType::Minus) {
        let op = toks[pos];
        match spec_parse_unary(toks, pos + 1) {
            Err(ep) => Err(ep),
            Ok((right, q)) => Ok((
                ExpressionModel::Unary { operator: op, right: Box::new(right) },
                q,
            )),
        }
    } else {
        spec_parse_primary(toks, pos)
    }
}

/// Whether the token kind is an operator of the given binary level
/// (0 equality, 1 comparison, 2 term, 3 factor).
pub open spec fn level_op(level: int, t: TokenType) -> bool {
    if level == 0 {
        t == TokenType::BangEqual || t == TokenType::EqualEqual
    } else if level == 1 {
        t == TokenType::Greater || t == TokenType::GreaterEqual || t == TokenType::Less
            || t == TokenType::LessEqual
    } else if level == 2 {
        t == TokenType::Minus || t == TokenType::Plus
    } else {
        t == TokenType::Slash || t == TokenType::Star
    }
}

/// The binary levels, clamped into range (0 equality, 1 comparison,
/// 2 term, 3 factor).
pub open spec fn clamp_level(level: int) -> int {
    if level < 0 { 0 } else if level > 3 { 3 } else { level }
}

/// Parse one binary-operator level: the next-higher level, then a
/// left-associative fold over this level's operators.
pub open spec fn spec_parse_level(toks: Seq<TokenModel>, pos: int, level: int)
    -> SpecParsed<ExpressionModel>
    decreases toks.len() - pos, 7 - clamp_level(level), 1int,
{
    if pos < 0 || pos >= toks.len() {
        Err((ParseErrorModel::ExpressionExpected { line: tok_line(toks, pos) }, pos))
    } else {
        let lv = clamp_level(level);
        let first = if lv < 3 {
            spec_parse_level(toks, pos, lv + 1)
        } else {
            spec_parse_unary(toks, pos)
        };
        match first {
            Err(ep) => Err(ep),
            Ok((e, q)) => spec_parse_level_tail(
                toks,
                step_pos(pos, q, toks.len() as int),
                lv,
                e,
            ),
        }
    }
}

/// The left-associative fold of one binary level: while the current token
/// is one of the level's operators, consume it, parse the next-higher
/// level, and wrap the accumulated left-hand side in a `Binary` node.
pub open spec fn spec_parse_level_tail(
    toks: Seq<TokenModel>,
    pos: int,
    level: int,
    left: ExpressionModel,
) -> SpecParsed<ExpressionModel>
    decreases toks.len() - pos, 0int, 0int,
{
    if 0 <= pos < toks.len() && level_op(clamp_level(level), toks[pos].t) {
        let lv = clamp_level(level);
        let op = toks[pos];
        let operand = if lv < 3 {
            spec_parse_level(toks, pos + 1, lv + 1)
        } else {
            spec_parse_unary(toks, pos + 1)
        };
        match operand {
            Err(ep) => Err(ep),
            Ok((right, q)) => spec_parse_level_tail(
                toks,
                step_pos(pos, q, toks.len() as int),
                lv,
                ExpressionModel::Binary {
                    left: Box::new(left),
                    operator: op,
                    right: Box::new(right),
                },
            ),
        }
    } else {
        Ok((left, pos))
    }
}

/// A position clamped into `[0, len]`, for well-founded measures.
pub open spec fn clamp_pos(len: int, pos: int) -> int {
    if pos < 0 { 0 } else if pos > len { len } else { pos }
}

/// Parse an expression: an assignment where an equals sign follows a
/// variable reference, else the equality level. A `=` after anything but a
/// bare variable is left in place for the statement grammar to reject.
pub open spec fn spec_parse_expression(toks: Seq<TokenModel>, pos: int)
    -> SpecParsed<ExpressionModel>
    decreases toks.len() - clamp_pos(toks.len() as int, pos), 8int, 0int,
{
    let p = clamp_pos(toks.len() as int, pos);
    match spec_parse_level(toks, p, 0) {
        Err(ep) => Err(ep),
        Ok((e, q)) => {
            if p <= q < toks.len() && toks[q].t == TokenType::Equal {
                match e {
                    ExpressionModel::Variable { name } => {
                        match spec_parse_expression(toks, step_pos(p, q + 1, toks.len() as int)) {
                            Err(ep) => Err(ep),
                            Ok((value, q2)) => Ok((
                                ExpressionModel::Assign { name, value: Box::new(value) },
                                q2,
                            )),
                        }
                    },
                    _ => Ok((e, q)),
                }
            } else {
                Ok((e, q))
            }
        },
    }
}

/// The position panic-mode recovery stops at: tokens are discarded until a
/// semicolon (consumed) or a token that begins a statement (left in place)
/// or the end of the tokens.
pub open spec fn spec_synchronize(toks: Seq<TokenModel>, pos: int) -> int
    decreases toks.len() - pos,
{
    if pos < 0 || pos >= toks.len() {
        pos
    } else {
        match toks[pos].t {
            TokenType::Semicolon => pos + 1,
            TokenType::Class => pos,
            TokenType::Fun => pos,
            TokenType::Var => pos,
            TokenType::For => pos,
            TokenType::If => pos,
            TokenType::While => pos,
            TokenType::Print => pos,
            TokenType::Return => pos,
            _ => spec_synchronize(toks, pos + 1),
        }
    }
}

/// The line a missing-token error is reported on: the offending token's
/// line, or the last line where the tokens have run out.
pub open spec fn error_line(toks: Seq<TokenModel>, pos: int) -> nat {
    if 0 <= pos < toks.len() {
        toks[pos].line
    } else {
        tok_line(toks, pos)
    }
}

/// Parse one declaration: `var <name> [= expression] ;`, or a statement
/// (`print expression ;` or `expression ;`).
pub open spec fn spec_parse_declaration(toks: Seq<TokenModel>, pos: int)
    -> SpecParsed<StatementModel>
    decreases toks.len() - pos, 10int, 0int,
{
    if 0 <= pos < toks.len() && toks[pos].t == TokenType::Var {
        if pos + 1 < toks.len() && toks[pos + 1].t == TokenType::Identifier {
            let name = toks[pos + 1];
            if pos + 2 < toks.len() && toks[pos + 2].t == TokenType::Equal {
                match spec_parse_expression(toks, step_pos(pos + 2, pos + 3, toks.len() as int)) {
                    Err(ep) => Err(ep),
                    Ok((init, q)) => {
                        if 0 <= q < toks.len() && toks[q].t == TokenType::Semicolon {
                            Ok((
                                StatementModel::Var { name, initializer: Some(init) },
                                q + 1,
                            ))
                        } else {
                            Err((
                                ParseErrorModel::ExpectSemicolonAfterVariableDeclaration {
                                    line: error_line(toks, q),
                                },
                                q,
                            ))
                        }
                    },
                }
            } else {
                if pos + 2 < toks.len() && toks[pos + 2].t == TokenType::Semicolon {
                    Ok((StatementModel::Var { name, initializer: None }, pos + 3))
                } else {
                    Err((
                        ParseErrorModel::ExpectSemicolonAfterVariableDeclaration {
                            line: error_line(toks, pos + 2),
                        },
                        pos + 2,
                    ))
                }
            }
        } else {
            Err((
                ParseErrorModel::ExpectVariableName { line: error_line(toks, pos + 1) },
                pos + 1,
            ))
        }
    } else if 0 <= pos < toks.len() && toks[pos].t == TokenType::Print {
        match spec_parse_expression(toks, step_pos(pos, pos + 1, toks.len() as int)) {
            Err(ep) => Err(ep),
            Ok((e, q)) => {
                if 0 <= q < toks.len() && toks[q].t == TokenType::Semicolon {
                    Ok((StatementModel::Print { expr: e }, q + 1))
                } else {
                    Err((
                        ParseErrorModel::ExpectSemicolonAfterValue { line: error_line(toks, q) },
                        q,
                    ))
                }
            },
        }
    } else {
        match spec_parse_expression(toks, pos) {
            Err(ep) => Err(ep),
            Ok((e, q)) => {
                if 0 <= q < toks.len() && toks[q].t == TokenType::Semicolon {
                    Ok((StatementModel::ExpressionStatement { expr: e }, q + 1))
                } else {
                    Err((
                        ParseErrorModel::ExpectSemicolonAfterExpression {
                            line: error_line(toks, q),
                        },
                        q,
                    ))
                }
            },
        }
    }
}

/// Parse a whole program: declarations until the end-of-stream token. The
/// first failing declaration's error is returned, after recovery has no
/// further statements to offer.
pub open spec fn spec_parse_program(toks: Seq<TokenModel>, pos: int)
    -> Result<Seq<StatementModel>, (ParseErrorModel, int)>
    decreases toks.len() - pos, 12int, 0int,
{
    if at_end(toks, pos) {
        Ok(Seq::empty())
    } else {
        match spec_parse_declaration(toks, pos) {
            Err(ep) => Err(ep),
            Ok((s, q)) => {
                match spec_parse_program(toks, step_pos(pos, q, toks.len() as int)) {
                    Ok(rest) => Ok(seq![s] + rest),
                    Err(ep) => Err(ep),
                }
            },
        }
    }
}


/// The line parsing stands at: the line of the last consumed token.
fn line_at(toks: &Vec<Token>, pos: usize) -> (r: usize)
    requires
        toks@.len() > 0,
    ensures
        r as nat == tok_line(tokens_view(toks@), pos as int),
{
    if pos == 0 {
        toks[0].line
    } else if pos - 1 < toks.len() {
        toks[pos - 1].line
    } else {
        toks[toks.len() - 1].line
    }
}

/// The line a missing-token error is reported on.
fn err_line(toks: &Vec<Token>, pos: usize) -> (r: usize)
    requires
        toks@.len() > 0,
    ensures
        r as nat == error_line(tokens_view(toks@), pos as int),
{
    if pos < toks.len() {
        toks[pos].line
    } else {
        line_at(toks, pos)
    }
}

/// Whether the token kind is an operator of the given binary level.
fn is_level_op(level: u8, t: TokenType) -> (r: bool)
    requires
        level <= 3,
    ensures
        r == level_op(level as int, t),
{
    if level == 0 {
        t == TokenType::BangEqual || t == TokenType::EqualEqual
    } else if level == 1 {
        t == TokenType::Greater || t == TokenType::GreaterEqual || t == TokenType::Less
            || t == TokenType::LessEqual
    } else if level == 2 {
        t == TokenType::Minus || t == TokenType::Plus
    } else {
        t == TokenType::Slash || t == TokenType::Star
    }
}

/// Parse a primary expression; exactly what `spec_parse_primary` says.
fn primary(toks: &Vec<Token>, pos: usize) -> (r: (Result<Expression, Error>, usize))
    requires
        wf_parse_tokens(tokens_view(toks@)),
        pos <= toks@.len(),
    ensures
        (match spec_parse_primary(tokens_view(toks@), pos as int) {
            Ok((em, q)) => (match r.0 {
                Ok(e) => e@ == em && wf_expression(em) && r.1 == q && pos < q <= toks@.len(),
                _ => false,
            }),
            Err((em, q)) => (match r.0 {
                Err(e) => e@ == em && r.1 == q && pos <= q <= toks@.len(),
                _ => false,
            }),
        }),
    decreases toks@.len() - pos, 1int, 0int,
{
    let n = toks.len();
    if pos >= n || toks[pos].t == TokenType::Eof {
        (Err(Error::ExpressionExpected { line: line_at(toks, pos) }), pos)
    } else {
        let tok = &toks[pos];
        if tok.t == TokenType::True || tok.t == TokenType::False || tok.t == TokenType::Nil
            || tok.t == TokenType::Number || tok.t == TokenType::String {
            match &tok.literal {
                Some(l) => (Ok(Expression::Literal { value: l.duplicate() }), pos + 1),
                None => (Err(Error::ExpressionExpected { line: tok.line }), pos + 1),
            }
        } else if tok.t == TokenType::Identifier {
            (Ok(Expression::Variable { name: tok.duplicate() }), pos + 1)
        } else if tok.t == TokenType::LeftParen {
            let (res, q) = expression(toks, pos + 1);
            match res {
                Err(e) => (Err(e), q),
                Ok(inner) => {
                    if q < n {
                        if toks[q].t == TokenType::RightParen {
                            (Ok(Expression::Grouping { expr: Box::new(inner) }), q + 1)
                        } else {
                            (Err(Error::RightParenExpected { line: line_at(toks, q + 1) }), q + 1)
                        }
                    } else {
                        (Err(Error::RightParenExpected { line: line_at(toks, q) }), q)
                    }
                },
            }
        } else {
            (Err(Error::UnexpectedToken { line: tok.line, lexeme: tok.lexeme.clone() }), pos + 1)
        }
    }
}

/// Parse a unary expression; exactly what `spec_parse_unary` says.
fn unary(toks: &Vec<Token>, pos: usize) -> (r: (Result<Expression, Error>, usize))
    requires
        wf_parse_tokens(tokens_view(toks@)),
        pos <= toks@.len(),
    ensures
        (match spec_parse_unary(tokens_view(toks@), pos as int) {
            Ok((em, q)) => (match r.0 {
                Ok(e) => e@ == em && wf_expression(em) && r.1 == q && pos < q <= toks@.len(),
                _ => false,
            }),
            Err((em, q)) => (match r.0 {
                Err(e) => e@ == em && r.1 == q && pos <= q <= toks@.len(),
                _ => false,
            }),
        }),
    decreases toks@.len() - pos, 2int, 0int,
{
    let n = toks.len();
    if pos < n && (toks[pos].t == TokenType::Bang || toks[pos].t == TokenType::Minus) {
        let op = toks[pos].duplicate();
        let (res, q) = unary(toks, pos + 1);
        match res {
            Err(e) => (Err(e), q),
            Ok(right) => (
                Ok(Expression::Unary { operator: op, right: Box::new(right) }),
                q,
            ),
        }
    } else {
        primary(toks, pos)
    }
}

/// Parse one binary-operator level; exactly what `spec_parse_level` says.
fn binary_level(toks: &Vec<Token>, pos: usize, level: u8) -> (r: (Result<Expression, Error>, usize))
    requires
        wf_parse_tokens(tokens_view(toks@)),
        pos <= toks@.len(),
        level <= 3,
    ensures
        (match spec_parse_level(tokens_view(toks@), pos as int, level as int) {
            Ok((em, q)) => (match r.0 {
                Ok(e) => e@ == em && wf_expression(em) && r.1 == q && pos < q <= toks@.len(),
                _ => false,
            }),
            Err((em, q)) => (match r.0 {
                Err(e) => e@ == em && r.1 == q && pos <= q <= toks@.len(),
                _ => false,
            }),
        }),
    decreases toks@.len() - pos, 7 - level, 1int,
{
    let n = toks.len();
    if pos >= n {
        return (Err(Error::ExpressionExpected { line: line_at(toks, pos) }), pos);
    }
    let (res, q0) = if level < 3 {
        binary_level(toks, pos, level + 1)
    } else {
        unary(toks, pos)
    };
    match res {
        Err(e) => (Err(e), q0),
        Ok(first) => {
            let mut expr = first;
            let mut cur = q0;
            loop
                invariant
                    pos < cur <= toks@.len(),
                    toks@.len() == n,
                    level <= 3,
                    wf_parse_tokens(tokens_view(toks@)),
                    wf_expression(expr@),
                    spec_parse_level(tokens_view(toks@), pos as int, level as int)
                        == spec_parse_level_tail(
                            tokens_view(toks@), cur as int, level as int, expr@),
                decreases toks@.len() - cur,
            {
                if !(cur < n && is_level_op(level, toks[cur].t)) {
                    return (Ok(expr), cur);
                }
                let op = toks[cur].duplicate();
                let (sub, q2) = if level < 3 {
                    binary_level(toks, cur + 1, level + 1)
                } else {
                    unary(toks, cur + 1)
                };
                match sub {
                    Err(e) => {
                        return (Err(e), q2);
                    },
                    Ok(right) => {
                        expr = Expression::Binary {
                            left: Box::new(expr),
                            operator: op,
                            right: Box::new(right),
                        };
                        cur = q2;
                    },
                }
            }
        },
    }
}

/// Parse an expression; exactly what `spec_parse_expression` says.
fn expression(toks: &Vec<Token>, pos: usize) -> (r: (Result<Expression, Error>, usize))
    requires
        wf_parse_tokens(tokens_view(toks@)),
        pos <= toks@.len(),
    ensures
        (match spec_parse_expression(tokens_view(toks@), pos as int) {
            Ok((em, q)) => (match r.0 {
                Ok(e) => e@ == em && wf_expression(em) && r.1 == q && pos < q <= toks@.len(),
                _ => false,
            }),
            Err((em, q)) => (match r.0 {
                Err(e) => e@ == em && r.1 == q && pos <= q <= toks@.len(),
                _ => false,
            }),
        }),
    decreases toks@.len() - pos, 8int, 0int,
{
    let n = toks.len();
    let (res, q) = binary_level(toks, pos, 0);
    match res {
        Err(e) => (Err(e), q),
        Ok(e0) => {
            if q < n && toks[q].t == TokenType::Equal {
                match e0 {
                    Expression::Variable { name } => {
                        let (sub, q2) = expression(toks, q + 1);
                        match sub {
                            Err(e) => (Err(e), q2),
                            Ok(v) => (
                                Ok(Expression::Assign { name, value: Box::new(v) }),
                                q2,
                            ),
                        }
                    },
                    other => (Ok(other), q),
                }
            } else {
                (Ok(e0), q)
            }
        },
    }
}

/// Discard tokens up to the next statement boundary: a semicolon is
/// consumed, a keyword that begins a statement is left in place.
fn synchronize(toks: &Vec<Token>, pos: usize) -> (r: usize)
    requires
        pos <= toks@.len(),
    ensures
        r as int == spec_synchronize(tokens_view(toks@), pos as int),
        pos <= r <= toks@.len(),
{
    let n = toks.len();
    let mut cur = pos;
    loop
        invariant
            pos <= cur <= n,
            n == toks@.len(),
            spec_synchronize(tokens_view(toks@), pos as int)
                == spec_synchronize(tokens_view(toks@), cur as int),
        decreases n - cur,
    {
        if cur >= n {
            return cur;
        }
        match toks[cur].t {
            TokenType::Semicolon => {
                return cur + 1;
            },
            TokenType::Class => { return cur; },
            TokenType::Fun => { return cur; },
            TokenType::Var => { return cur; },
            TokenType::For => { return cur; },
            TokenType::If => { return cur; },
            TokenType::While => { return cur; },
            TokenType::Print => { return cur; },
            TokenType::Return => { return cur; },
            _ => {
                cur = cur + 1;
            },
        }
    }
}

/// Parse one expression starting at `pos`. On success the returned position
/// stands after the expression; on an error, panic-mode recovery discards
/// tokens to the next statement boundary and the returned position stands
/// there.
pub fn parse_expression_at(tokens: &Vec<Token>, pos: usize) -> (r: (Result<Expression, Error>, usize))
    requires
        wf_parse_tokens(tokens_view(tokens@)),
        pos <= tokens@.len(),
    ensures
        (match spec_parse_expression(tokens_view(tokens@), pos as int) {
            Ok((em, q)) => (match r.0 {
                Ok(e) => e@ == em && wf_expression(em) && r.1 == q,
                _ => false,
            }),
            Err((em, q)) => (match r.0 {
                Err(e) => e@ == em && r.1 == spec_synchronize(tokens_view(tokens@), q),
                _ => false,
            }),
        }),
{
    let (res, q) = expression(tokens, pos);
    match res {
        Ok(e) => (Ok(e), q),
        Err(e) => {
            let s = synchronize(tokens, q);
            (Err(e), s)
        },
    }
}

/// Parse the tokens as one expression, with panic-mode recovery on error.
pub fn parse_expression(tokens: Vec<Token>) -> (r: Result<Expression, Error>)
    requires
        wf_parse_tokens(tokens_view(tokens@)),
    ensures
        (match spec_parse_expression(tokens_view(tokens@), 0) {
            Ok((em, _)) => (match r {
                Ok(e) => e@ == em && wf_expression(em),
                _ => false,
            }),
            Err((em, _)) => (match r {
                Err(e) => e@ == em,
                _ => false,
            }),
        }),
{
    let (res, _q) = parse_expression_at(&tokens, 0);
    res
}

/// Parse one declaration; exactly what `spec_parse_declaration` says.
fn declaration(toks: &Vec<Token>, pos: usize) -> (r: (Result<Statement, Error>, usize))
    requires
        wf_parse_tokens(tokens_view(toks@)),
        pos <= toks@.len(),
    ensures
        (match spec_parse_declaration(tokens_view(toks@), pos as int) {
            Ok((sm, q)) => (match r.0 {
                Ok(s) => s@ == sm && crate::statement::wf_statement(sm) && r.1 == q
                    && pos < q <= toks@.len(),
                _ => false,
            }),
            Err((em, q)) => (match r.0 {
                Err(e) => e@ == em && r.1 == q && pos <= q <= toks@.len(),
                _ => false,
            }),
        }),
{
    let n = toks.len();
    if pos < n && toks[pos].t == TokenType::Var {
        if pos + 1 < n && toks[pos + 1].t == TokenType::Identifier {
            let name = toks[pos + 1].duplicate();
            if pos + 2 < n && toks[pos + 2].t == TokenType::Equal {
                let (sub, q) = expression(toks, pos + 3);
                match sub {
                    Err(e) => (Err(e), q),
                    Ok(init) => {
                        if q < n && toks[q].t == TokenType::Semicolon {
                            (Ok(Statement::Var { name, initializer: Some(init) }), q + 1)
                        } else {
                            (
                                Err(Error::ExpectSemicolonAfterVariableDeclaration {
                                    line: err_line(toks, q),
                                }),
                                q,
                            )
                        }
                    },
                }
            } else {
                if pos + 2 < n && toks[pos + 2].t == TokenType::Semicolon {
                    (Ok(Statement::Var { name, initializer: None }), pos + 3)
                } else {
                    (
                        Err(Error::ExpectSemicolonAfterVariableDeclaration {
                            line: err_line(toks, pos + 2),
                        }),
                        pos + 2,
                    )
                }
            }
        } else {
            (Err(Error::ExpectVariableName { line: err_line(toks, pos + 1) }), pos + 1)
        }
    } else if pos < n && toks[pos].t == TokenType::Print {
        let (sub, q) = expression(toks, pos + 1);
        match sub {
            Err(e) => (Err(e), q),
            Ok(e0) => {
                if q < n && toks[q].t == TokenType::Semicolon {
                    (Ok(Statement::Print { expr: e0 }), q + 1)
                } else {
                    (Err(Error::ExpectSemicolonAfterValue { line: err_line(toks, q) }), q)
                }
            },
        }
    } else {
        let (sub, q) = expression(toks, pos);
        match sub {
            Err(e) => (Err(e), q),
            Ok(e0) => {
                if q < n && toks[q].t == TokenType::Semicolon {
                    (Ok(Statement::ExpressionStatement { expr: e0 }), q + 1)
                } else {
                    (Err(Error::ExpectSemicolonAfterExpression { line: err_line(toks, q) }), q)
                }
            },
        }
    }
}

/// Parse the tokens as a program: declarations until the end-of-stream
/// token. The first failing declaration's error aborts the parse and is
/// returned; exactly what `spec_parse_program` says.
pub fn parse(tokens: Vec<Token>) -> (r: Result<Vec<Statement>, Error>)
    requires
        wf_parse_tokens(tokens_view(tokens@)),
    ensures
        (match spec_parse_program(tokens_view(tokens@), 0) {
            Ok(ms) => (match r {
                Ok(v) => statements_view(v@) == ms
                    && (forall|i: int| 0 <= i < ms.len()
                        ==> crate::statement::wf_statement(#[trigger] ms[i])),
                _ => false,
            }),
            Err((em, _)) => (match r {
                Err(e) => e@ == em,
                _ => false,
            }),
        }),
{
    let n = tokens.len();
    let mut stmts: Vec<Statement> = Vec::new();
    let mut pos: usize = 0;
    loop
        invariant
            pos <= n,
            n == tokens@.len(),
            wf_parse_tokens(tokens_view(tokens@)),
            forall|i: int| 0 <= i < stmts@.len()
                ==> crate::statement::wf_statement((#[trigger] stmts@[i])@),
            (match spec_parse_program(tokens_view(tokens@), pos as int) {
                Ok(rest) => spec_parse_program(tokens_view(tokens@), 0)
                    == Ok::<Seq<StatementModel>, (ParseErrorModel, int)>(
                        statements_view(stmts@) + rest),
                Err(ep) => spec_parse_program(tokens_view(tokens@), 0)
                    == Err::<Seq<StatementModel>, (ParseErrorModel, int)>(ep),
            }),
        decreases n - pos,
    {
        if pos >= n || tokens[pos].t == TokenType::Eof {
            proof {
                assert(statements_view(stmts@) + Seq::<StatementModel>::empty()
                    =~= statements_view(stmts@));
            }
            return Ok(stmts);
        }
        let ghost prev = stmts@;
        let (res, q) = declaration(&tokens, pos);
        match res {
            Err(e) => {
                return Err(e);
            },
            Ok(s) => {
                proof {
                    assert(statements_view(prev.push(s)) =~= statements_view(prev) + seq![s@]);
                    match spec_parse_program(tokens_view(tokens@), q as int) {
                        Ok(rest2) => {
                            assert(statements_view(prev) + (seq![s@] + rest2)
                                =~= statements_view(prev.push(s)) + rest2);
                        },
                        Err(_) => {},
                    }
                }
                stmts.push(s);
                pos = q;
            },
        }
    }
}


/// Binary operators are left-associative: three operands joined by two
/// operators of one level parse as a tree whose left child holds the first
/// two operands, never the last two.
pub proof fn lemma_binary_level_left_associative(
    n1: TokenModel,
    o1: TokenModel,
    n2: TokenModel,
    o2: TokenModel,
    n3: TokenModel,
    eof: TokenModel,
    level: int,
)
    requires
        0 <= level <= 3,
        n1.t == TokenType::Number && n1.literal is Some,
        n2.t == TokenType::Number && n2.literal is Some,
        n3.t == TokenType::Number && n3.literal is Some,
        level_op(level, o1.t),
        level_op(level, o2.t),
        eof.t == TokenType::Eof,
    ensures
        spec_parse_expression(seq![n1, o1, n2, o2, n3, eof], 0) == Ok::<
            (ExpressionModel, int),
            (ParseErrorModel, int),
        >((
            ExpressionModel::Binary {
                left: Box::new(ExpressionModel::Binary {
                    left: Box::new(ExpressionModel::Literal { value: n1.literal->0 }),
                    operator: o1,
                    right: Box::new(ExpressionModel::Literal { value: n2.literal->0 }),
                }),
                operator: o2,
                right: Box::new(ExpressionModel::Literal { value: n3.literal->0 }),
            },
            5,
        )),
{
    let toks = seq![n1, o1, n2, o2, n3, eof];
    let e1 = ExpressionModel::Literal { value: n1.literal->0 };
    let e2 = ExpressionModel::Literal { value: n2.literal->0 };
    let e3 = ExpressionModel::Literal { value: n3.literal->0 };
    assert(spec_parse_primary(toks, 0) == Ok::<(ExpressionModel, int), (ParseErrorModel, int)>((
        e1,
        1,
    )));
    assert(spec_parse_primary(toks, 2) == Ok::<(ExpressionModel, int), (ParseErrorModel, int)>((
        e2,
        3,
    )));
    assert(spec_parse_primary(toks, 4) == Ok::<(ExpressionModel, int), (ParseErrorModel, int)>((
        e3,
        5,
    )));
    assert forall|l: int| level < l <= 3 implies !(#[trigger] level_op(l, o1.t))
        && !(#[trigger] level_op(l, o2.t)) by {
        assert(level_op(level, o1.t));
        assert(level_op(level, o2.t));
    }
    lemma_operand_levels(toks, 0, e1, level);
    lemma_operand_levels(toks, 2, e2, level);
    lemma_operand_levels(toks, 4, e3, level);
    let b12 = ExpressionModel::Binary {
        left: Box::new(e1),
        operator: o1,
        right: Box::new(e2),
    };
    let b123 = ExpressionModel::Binary {
        left: Box::new(b12),
        operator: o2,
        right: Box::new(e3),
    };
    assert(spec_parse_level_tail(toks, 5, level, b123)
        == Ok::<(ExpressionModel, int), (ParseErrorModel, int)>((b123, 5)));
    assert(spec_parse_level_tail(toks, 3, level, b12)
        == spec_parse_level_tail(toks, 5, level, b123));
    assert(spec_parse_level_tail(toks, 1, level, e1)
        == spec_parse_level_tail(toks, 3, level, b12));
    assert(spec_parse_level(toks, 0, level)
        == Ok::<(ExpressionModel, int), (ParseErrorModel, int)>((b123, 5)));
    lemma_result_climbs(toks, 0, b123, 5, level);
    assert(spec_parse_level(toks, 0, 0)
        == Ok::<(ExpressionModel, int), (ParseErrorModel, int)>((b123, 5)));
}

/// From a level whose operator does not stand at `after`, the parse of one
/// operand climbs unchanged to every higher-precedence level: each level
/// below finds its first operand and an empty tail.
proof fn lemma_operand_levels(toks: Seq<TokenModel>, pos: int, e: ExpressionModel, level: int)
    requires
        0 <= level <= 3,
        0 <= pos < toks.len(),
        spec_parse_primary(toks, pos) == Ok::<(ExpressionModel, int), (ParseErrorModel, int)>((
            e,
            pos + 1,
        )),
        !(toks[pos].t == TokenType::Bang || toks[pos].t == TokenType::Minus),
        pos + 1 < toks.len() ==> (forall|l: int| level < l <= 3
            ==> !(#[trigger] level_op(l, toks[pos + 1].t))),
    ensures
        spec_parse_level(toks, pos, level + 1) == Ok::<
            (ExpressionModel, int),
            (ParseErrorModel, int),
        >((e, pos + 1)) || level == 3,
        level == 3 ==> spec_parse_unary(toks, pos) == Ok::<
            (ExpressionModel, int),
            (ParseErrorModel, int),
        >((e, pos + 1)),
    decreases 3 - level,
{
    assert(spec_parse_unary(toks, pos) == spec_parse_primary(toks, pos));
    if level < 3 {
        lemma_operand_levels(toks, pos, e, level + 1);
        assert(spec_parse_level_tail(toks, pos + 1, level + 1, e)
            == Ok::<(ExpressionModel, int), (ParseErrorModel, int)>((e, pos + 1)));
    }
}

/// A finished parse at one level climbs unchanged to every lower-precedence
/// level when none of their operators stands at the stopping position.
proof fn lemma_result_climbs(
    toks: Seq<TokenModel>,
    pos: int,
    e: ExpressionModel,
    after: int,
    level: int,
)
    requires
        0 <= level <= 3,
        0 <= pos < toks.len(),
        pos < after <= toks.len(),
        spec_parse_level(toks, pos, level) == Ok::<
            (ExpressionModel, int),
            (ParseErrorModel, int),
        >((e, after)),
        after < toks.len() ==> forall|l: int| 0 <= l < level
            ==> !level_op(l, toks[after].t),
    ensures
        spec_parse_level(toks, pos, 0) == Ok::<(ExpressionModel, int), (ParseErrorModel, int)>((
            e,
            after,
        )),
    decreases level,
{
    if level > 0 {
        assert(spec_parse_level_tail(toks, after, level - 1, e)
            == Ok::<(ExpressionModel, int), (ParseErrorModel, int)>((e, after)));
        assert(spec_parse_level(toks, pos, level - 1)
            == Ok::<(ExpressionModel, int), (ParseErrorModel, int)>((e, after)));
        lemma_result_climbs(toks, pos, e, after, level - 1);
    }
}

} // verus!
