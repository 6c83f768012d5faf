//! Lexical scanning: source text to tokens by maximal munch.
//!
//! The scanner's behaviour is specified by `scan_text`: a recursive
//! function over the character sequence that consumes one lexeme per step
//! (`scan_step`). The executable scanner is proved to return exactly what
//! `scan_text` says, and `lemma_scan_rejoins_source` shows that re-joining
//! the lexemes of a successful scan reproduces the source with whitespace
//! and comments removed.
use vstd::prelude::*;
use vstd::string::StrSliceExecFns;

use crate::number::{decoded_number, is_digit_char};
use crate::text::{char_debug, char_debug_exec};
use crate::token::{Literal, LiteralModel, Token, TokenModel, TokenType};

verus! {

/// A lexical failure. The first failure aborts scanning: no token list is
/// returned alongside it.
#[derive(Debug, Clone, PartialEq)]
pub enum Error {
    UnterminatedStringError { line: usize },
    UnexpectedCharacterError { line: usize, c: char },
}

/// Mathematical model of a scan error.
pub enum ScanErrorModel {
    UnterminatedString { line: nat },
    UnexpectedCharacter { line: nat, c: char },
}

impl View for Error {
    type V = ScanErrorModel;

    open spec fn view(&self) -> ScanErrorModel {
        match self {
            Error::UnterminatedStringError { line } =>
                ScanErrorModel::UnterminatedString { line: *line as nat },
            Error::UnexpectedCharacterError { line, c } =>
                ScanErrorModel::UnexpectedCharacter { line: *line as nat, c: *c },
        }
    }
}

/// The rendered form of a scan error.
pub open spec fn scan_error_text(e: ScanErrorModel) -> Seq<char> {
    match e {
        ScanErrorModel::UnterminatedString { line } =>
            crate::error::error_text(line, "unterminated string"@),
        ScanErrorModel::UnexpectedCharacter { line, c } =>
            crate::error::error_text(line, "unexpected character "@ + char_debug(c)),
    }
}

impl Error {
    /// Render the error as `[line N] Error: <message>`.
    pub fn message(&self) -> (r: String)
        ensures
            r@ == scan_error_text(self@),
    {
        match self {
            Error::UnterminatedStringError { line } =>
                crate::error::format_error(*line, "unterminated string"),
            Error::UnexpectedCharacterError { line, c } => {
                let mut msg = String::from_str("unexpected character ");
                let quoted = char_debug_exec(*c);
                msg.append(quoted.as_str());
                crate::error::format_error(*line, msg.as_str())
            },
        }
    }
}

/// Whether the character begins an identifier or keyword.
pub open spec fn is_alpha_char(c: char) -> bool {
    ('a' <= c <= 'z') || ('A' <= c <= 'Z') || c == '_'
}

/// Whether the character may continue an identifier or keyword.
pub open spec fn is_alpha_numeric_char(c: char) -> bool {
    is_alpha_char(c) || is_digit_char(c)
}

/// The token kind of an identifier lexeme: its keyword, or `Identifier`.
pub open spec fn keyword_type(s: Seq<char>) -> TokenType {
    if s == "and"@ { TokenType::And }
    else if s == "class"@ { TokenType::Class }
    else if s == "else"@ { TokenType::Else }
    else if s == "false"@ { TokenType::False }
    else if s == "for"@ { TokenType::For }
    else if s == "fun"@ { TokenType::Fun }
    else if s == "if"@ { TokenType::If }
    else if s == "nil"@ { TokenType::Nil }
    else if s == "or"@ { TokenType::Or }
    else if s == "print"@ { TokenType::Print }
    else if s == "return"@ { TokenType::Return }
    else if s == "super"@ { TokenType::Super }
    else if s == "this"@ { TokenType::This }
    else if s == "true"@ { TokenType::True }
    else if s == "var"@ { TokenType::Var }
    else if s == "while"@ { TokenType::While }
    else { TokenType::Identifier }
}

/// The literal an identifier token carries: `nil`, `true` and `false` carry
/// their decoded value, every other lexeme its own text.
pub open spec fn identifier_literal(t: TokenType, lexeme: Seq<char>) -> LiteralModel {
    match t {
        TokenType::Nil => LiteralModel::Nil,
        TokenType::True => LiteralModel::Boolean(true),
        TokenType::False => LiteralModel::Boolean(false),
        _ => LiteralModel::Identifier(lexeme),
    }
}

/// The bit pattern a number lexeme decodes to.
pub open spec fn number_literal_bits(s: Seq<char>) -> u64 {
    match decoded_number(s) {
        Some(bits) => bits,
        None => 0,
    }
}

/// The position just past a line comment: the next newline or the end.
pub open spec fn comment_end(src: Seq<char>, pos: int) -> int
    decreases src.len() - pos,
{
    if pos < src.len() && src[pos] != '\n' {
        comment_end(src, pos + 1)
    } else {
        pos
    }
}

/// The position of the closing quote of a string body, or the end.
pub open spec fn string_body_end(src: Seq<char>, pos: int) -> int
    decreases src.len() - pos,
{
    if pos < src.len() && src[pos] != '"' {
        string_body_end(src, pos + 1)
    } else {
        pos
    }
}

/// The position just past a run of decimal digits.
pub open spec fn digits_end(src: Seq<char>, pos: int) -> int
    decreases src.len() - pos,
{
    if pos < src.len() && is_digit_char(src[pos]) {
        digits_end(src, pos + 1)
    } else {
        pos
    }
}

/// The position just past a number lexeme: digits, then optionally one dot
/// followed by at least one digit.
pub open spec fn number_end(src: Seq<char>, pos: int) -> int {
    let d = digits_end(src, pos);
    if d + 1 < src.len() && src[d] == '.' && is_digit_char(src[d + 1]) {
        digits_end(src, d + 2)
    } else {
        d
    }
}

/// The position just past a run of identifier characters.
pub open spec fn ident_end(src: Seq<char>, pos: int) -> int
    decreases src.len() - pos,
{
    if pos < src.len() && is_alpha_numeric_char(src[pos]) {
        ident_end(src, pos + 1)
    } else {
        pos
    }
}

/// The number of newline characters in `src[a..b]`.
pub open spec fn newlines_in(src: Seq<char>, a: int, b: int) -> nat
    decreases b - a,
{
    if a < b {
        (if 0 <= a < src.len() && src[a] == '\n' { 1nat } else { 0nat }) + newlines_in(src, a + 1, b)
    } else {
        0
    }
}

/// A token with no literal, read from `src[pos..end]`.
pub open spec fn plain_token(src: Seq<char>, pos: int, end: int, t: TokenType, line: nat)
    -> TokenModel {
    TokenModel { t, lexeme: src.subrange(pos, end), literal: None, line }
}

/// What one scanning step does: produce a token, skip text, or fail.
pub enum ScanStep {
    Token(TokenModel, int, nat),
    Skip(int, nat),
    Fail(ScanErrorModel),
}

/// One maximal-munch step at `pos` (which must be in range): the token or
/// skipped stretch beginning there, the position and line after it, or the
/// lexical error.
pub open spec fn scan_step(src: Seq<char>, pos: int, line: nat) -> ScanStep {
    let c = src[pos];
    if c == '(' { ScanStep::Token(plain_token(src, pos, pos + 1, TokenType::LeftParen, line), pos + 1, line) }
    else if c == ')' { ScanStep::Token(plain_token(src, pos, pos + 1, TokenType::RightParen, line), pos + 1, line) }
    else if c == '{' { ScanStep::Token(plain_token(src, pos, pos + 1, TokenType::LeftBrace, line), pos + 1, line) }
    else if c == '}' { ScanStep::Token(plain_token(src, pos, pos + 1, TokenType::RightBrace, line), pos + 1, line) }
    else if c == ',' { ScanStep::Token(plain_token(src, pos, pos + 1, TokenType::Comma, line), pos + 1, line) }
    else if c == '.' { ScanStep::Token(plain_token(src, pos, pos + 1, TokenType::Dot, line), pos + 1, line) }
    else if c == '-' { ScanStep::Token(plain_token(src, pos, pos + 1, TokenType::Minus, line), pos + 1, line) }
    else if c == '+' { ScanStep::Token(plain_token(src, pos, pos + 1, TokenType::Plus, line), pos + 1, line) }
    else if c == ';' { ScanStep::Token(plain_token(src, pos, pos + 1, TokenType::Semicolon, line), pos + 1, line) }
    else if c == '*' { ScanStep::Token(plain_token(src, pos, pos + 1, TokenType::Star, line), pos + 1, line) }
    else if c == '!' {
        if pos + 1 < src.len() && src[pos + 1] == '=' {
            ScanStep::Token(plain_token(src, pos, pos + 2, TokenType::BangEqual, line), pos + 2, line)
        } else {
            ScanStep::Token(plain_token(src, pos, pos + 1, TokenType::Bang, line), pos + 1, line)
        }
    }
    else if c == '=' {
        if pos + 1 < src.len() && src[pos + 1] == '=' {
            ScanStep::Token(plain_token(src, pos, pos + 2, TokenType::EqualEqual, line), pos + 2, line)
        } else {
            ScanStep::Token(plain_token(src, pos, pos + 1, TokenType::Equal, line), pos + 1, line)
        }
    }
    else if c == '<' {
        if pos + 1 < src.len() && src[pos + 1] == '=' {
            ScanStep::Token(plain_token(src, pos, pos + 2, TokenType::LessEqual, line), pos + 2, line)
        } else {
            ScanStep::Token(plain_token(src, pos, pos + 1, TokenType::Less, line), pos + 1, line)
        }
    }
    else if c == '>' {
        if pos + 1 < src.len() && src[pos + 1] == '=' {
            ScanStep::Token(plain_token(src, pos, pos + 2, TokenType::GreaterEqual, line), pos + 2, line)
        } else {
            ScanStep::Token(plain_token(src, pos, pos + 1, TokenType::Greater, line), pos + 1, line)
        }
    }
    else if c == '/' {
        if pos + 1 < src.len() && src[pos + 1] == '/' {
            ScanStep::Skip(comment_end(src, pos + 2), line)
        } else {
            ScanStep::Token(plain_token(src, pos, pos + 1, TokenType::Slash, line), pos + 1, line)
        }
    }
    else if c == ' ' || c == '\r' || c == '\t' { ScanStep::Skip(pos + 1, line) }
    else if c == '\n' { ScanStep::Skip(pos + 1, line + 1) }
    else if c == '"' {
        let e = string_body_end(src, pos + 1);
        let l2 = line + newlines_in(src, pos + 1, e);
        if e >= src.len() {
            ScanStep::Fail(ScanErrorModel::UnterminatedString { line: l2 })
        } else {
            ScanStep::Token(
                TokenModel {
                    t: TokenType::String,
                    lexeme: src.subrange(pos, e + 1),
                    literal: Some(LiteralModel::Str(src.subrange(pos + 1, e))),
                    line: l2,
                },
                e + 1,
                l2,
            )
        }
    }
    else if is_digit_char(c) {
        let e = number_end(src, pos);
        ScanStep::Token(
            TokenModel {
                t: TokenType::Number,
                lexeme: src.subrange(pos, e),
                literal: Some(LiteralModel::Number(number_literal_bits(src.subrange(pos, e)))),
                line,
            },
            e,
            line,
        )
    }
    else if is_alpha_char(c) {
        let e = ident_end(src, pos);
        let lexeme = src.subrange(pos, e);
        let t = keyword_type(lexeme);
        ScanStep::Token(
            TokenModel { t, lexeme, literal: Some(identifier_literal(t, lexeme)), line },
            e,
            line,
        )
    }
    else {
        ScanStep::Fail(ScanErrorModel::UnexpectedCharacter { line, c })
    }
}

/// The end-of-stream token.
pub open spec fn eof_token(line: nat) -> TokenModel {
    TokenModel { t: TokenType::Eof, lexeme: Seq::empty(), literal: None, line }
}

/// Clamp a step's next position into `(pos, len]`, so that recursion on it
/// is well founded; `lemma_scan_step_in_range` shows the clamp never moves
/// a position that `scan_step` actually produces.
pub open spec fn clamp_next(pos: int, next: int, len: int) -> int {
    if next <= pos { pos + 1 } else if next > len { len } else { next }
}

/// The tokens scanned from `pos` on (with the line counter at `line`), or
/// the first lexical error. A terminal end-of-stream token is always
/// appended.
pub open spec fn scan_from(src: Seq<char>, pos: int, line: nat)
    -> Result<Seq<TokenModel>, ScanErrorModel>
    decreases src.len() - pos,
{
    if pos >= src.len() {
        Ok(seq![eof_token(line)])
    } else {
        match scan_step(src, pos, line) {
            ScanStep::Fail(e) => Err(e),
            ScanStep::Token(t, next, l2) => {
                match scan_from(src, clamp_next(pos, next, src.len() as int), l2) {
                    Ok(rest) => Ok(seq![t] + rest),
                    Err(e) => Err(e),
                }
            },
            ScanStep::Skip(next, l2) => scan_from(src, clamp_next(pos, next, src.len() as int), l2),
        }
    }
}

/// What scanning a whole source text yields.
pub open spec fn scan_text(src: Seq<char>) -> Result<Seq<TokenModel>, ScanErrorModel> {
    scan_from(src, 0, 1)
}

/// `comment_end` stays in `[pos, len]`, stops at a newline or the end, and
/// passes only non-newline characters.
pub proof fn lemma_comment_end(src: Seq<char>, pos: int)
    requires
        0 <= pos <= src.len(),
    ensures
        pos <= comment_end(src, pos) <= src.len(),
        comment_end(src, pos) < src.len() ==> src[comment_end(src, pos)] == '\n',
        forall|i: int| pos <= i < comment_end(src, pos) ==> src[i] != '\n',
    decreases src.len() - pos,
{
    if pos < src.len() && src[pos] != '\n' {
        lemma_comment_end(src, pos + 1);
    }
}

/// `string_body_end` stays in `[pos, len]`, stops at a quote or the end,
/// and passes only non-quote characters.
pub proof fn lemma_string_body_end(src: Seq<char>, pos: int)
    requires
        0 <= pos <= src.len(),
    ensures
        pos <= string_body_end(src, pos) <= src.len(),
        string_body_end(src, pos) < src.len() ==> src[string_body_end(src, pos)] == '"',
        forall|i: int| pos <= i < string_body_end(src, pos) ==> src[i] != '"',
    decreases src.len() - pos,
{
    if pos < src.len() && src[pos] != '"' {
        lemma_string_body_end(src, pos + 1);
    }
}

/// `digits_end` stays in `[pos, len]`, stops at the first non-digit, and
/// passes only digits.
pub proof fn lemma_digits_end(src: Seq<char>, pos: int)
    requires
        0 <= pos <= src.len(),
    ensures
        pos <= digits_end(src, pos) <= src.len(),
        digits_end(src, pos) < src.len() ==> !is_digit_char(src[digits_end(src, pos)]),
        forall|i: int| pos <= i < digits_end(src, pos) ==> is_digit_char(src[i]),
    decreases src.len() - pos,
{
    if pos < src.len() && is_digit_char(src[pos]) {
        lemma_digits_end(src, pos + 1);
    }
}

/// `ident_end` stays in `[pos, len]`, stops at the first character that
/// cannot continue an identifier, and passes only identifier characters.
pub proof fn lemma_ident_end(src: Seq<char>, pos: int)
    requires
        0 <= pos <= src.len(),
    ensures
        pos <= ident_end(src, pos) <= src.len(),
        ident_end(src, pos) < src.len() ==> !is_alpha_numeric_char(src[ident_end(src, pos)]),
        forall|i: int| pos <= i < ident_end(src, pos) ==> is_alpha_numeric_char(src[i]),
    decreases src.len() - pos,
{
    if pos < src.len() && is_alpha_numeric_char(src[pos]) {
        lemma_ident_end(src, pos + 1);
    }
}

/// A number lexeme's end stays in `(pos, len]` when a digit stands at `pos`.
pub proof fn lemma_number_end(src: Seq<char>, pos: int)
    requires
        0 <= pos < src.len(),
        is_digit_char(src[pos]),
    ensures
        pos < number_end(src, pos) <= src.len(),
{
    lemma_digits_end(src, pos);
    let d = digits_end(src, pos);
    if d + 1 < src.len() && src[d] == '.' && is_digit_char(src[d + 1]) {
        lemma_digits_end(src, d + 2);
    }
}

/// There are no more newlines in a stretch than characters.
pub proof fn lemma_newlines_bound(src: Seq<char>, a: int, b: int)
    ensures
        newlines_in(src, a, b) <= (if b > a { b - a } else { 0 }),
    decreases b - a,
{
    if a < b {
        lemma_newlines_bound(src, a + 1, b);
    }
}

/// Extending a stretch by one character on the right adds that character's
/// newline count.
pub proof fn lemma_newlines_snoc(src: Seq<char>, a: int, b: int)
    requires
        a <= b,
    ensures
        newlines_in(src, a, b + 1)
            == newlines_in(src, a, b) + (if 0 <= b < src.len() && src[b] == '\n' { 1nat } else { 0nat }),
    decreases b - a,
{
    if a < b {
        lemma_newlines_snoc(src, a + 1, b);
    } else {
        assert(newlines_in(src, b, b) == 0);
        assert(newlines_in(src, b + 1, b + 1) == 0);
    }
}

/// Every position and line a scan step produces is in range: the position
/// moves strictly forward and never past the end, and the line moves by
/// exactly the newlines passed, so `clamp_next` never changes it.
pub proof fn lemma_scan_step_in_range(src: Seq<char>, pos: int, line: nat)
    requires
        0 <= pos < src.len(),
    ensures
        (match scan_step(src, pos, line) {
            ScanStep::Token(t, next, l2) => {
                pos < next <= src.len() && l2 == line + newlines_in(src, pos, next)
                && clamp_next(pos, next, src.len() as int) == next
            },
            ScanStep::Skip(next, l2) => {
                pos < next <= src.len() && l2 == line + newlines_in(src, pos, next)
                && clamp_next(pos, next, src.len() as int) == next
            },
            ScanStep::Fail(_) => true,
        }),
{
    let c = src[pos];
    let len = src.len() as int;
    if c == '/' && pos + 1 < len && src[pos + 1] == '/' {
        lemma_comment_end(src, pos + 2);
        let e = comment_end(src, pos + 2);
        lemma_newlines_zero(src, pos, e);
    } else if c == '"' {
        lemma_string_body_end(src, pos + 1);
        let e = string_body_end(src, pos + 1);
        if e < len {
            assert(newlines_in(src, pos, e + 1) == newlines_in(src, pos + 1, e)) by {
                lemma_newlines_snoc(src, pos + 1, e);
                assert(newlines_in(src, pos, e + 1)
                    == (if src[pos] == '\n' { 1nat } else { 0nat })
                        + newlines_in(src, pos + 1, e + 1));
            }
        }
    } else if is_digit_char(c) {
        lemma_number_end(src, pos);
        let e = number_end(src, pos);
        lemma_digits_end(src, pos);
        let d = digits_end(src, pos);
        if d + 1 < len && src[d] == '.' && is_digit_char(src[d + 1]) {
            lemma_digits_end(src, d + 2);
        }
        lemma_newlines_zero(src, pos, e);
    } else if is_alpha_char(c) {
        lemma_ident_end(src, pos);
        lemma_newlines_zero(src, pos, ident_end(src, pos));
    } else if pos + 1 < len && (c == '!' || c == '=' || c == '<' || c == '>') && src[pos + 1] == '=' {
        lemma_newlines_zero(src, pos, pos + 2);
    } else if c == '\n' {
        assert(newlines_in(src, pos + 1, pos + 1) == 0);
    } else {
        lemma_newlines_zero(src, pos, pos + 1);
    }
}

/// A stretch of characters none of which is a newline has no newlines.
pub proof fn lemma_newlines_zero(src: Seq<char>, a: int, b: int)
    requires
        forall|i: int| a <= i < b ==> (0 <= i < src.len() ==> src[i] != '\n'),
    ensures
        newlines_in(src, a, b) == 0,
    decreases b - a,
{
    if a < b {
        lemma_newlines_zero(src, a + 1, b);
    }
}

/// The models of a sequence of tokens.
pub open spec fn tokens_view(ts: Seq<Token>) -> Seq<TokenModel> {
    ts.map_values(|t: Token| t@)
}

/// The source text from `pos` on with whitespace and comments removed:
/// whitespace is dropped, a `//` comment is dropped to its line's end, a
/// string literal is copied verbatim through its closing quote, and every
/// other character is copied.
pub open spec fn stripped_text(src: Seq<char>, pos: int) -> Seq<char>
    decreases src.len() - pos,
{
    if pos < 0 || pos >= src.len() {
        Seq::empty()
    } else {
        let c = src[pos];
        if c == ' ' || c == '\r' || c == '\t' || c == '\n' {
            stripped_text(src, pos + 1)
        } else if c == '/' && pos + 1 < src.len() && src[pos + 1] == '/' {
            stripped_text(src, clamp_next(pos, comment_end(src, pos + 2), src.len() as int))
        } else if c == '"' {
            let e = string_body_end(src, pos + 1);
            if e >= src.len() {
                src.subrange(pos, src.len() as int)
            } else {
                src.subrange(pos, e + 1)
                    + stripped_text(src, clamp_next(pos, e + 1, src.len() as int))
            }
        } else {
            seq![c] + stripped_text(src, pos + 1)
        }
    }
}

/// The lexemes of a token sequence, joined in order.
pub open spec fn joined_lexemes(ts: Seq<TokenModel>) -> Seq<char>
    decreases ts.len(),
{
    if ts.len() == 0 {
        Seq::empty()
    } else {
        ts[0].lexeme + joined_lexemes(ts.subrange(1, ts.len() as int))
    }
}

/// A run of characters that the stripper copies one by one (no whitespace,
/// no quote, no slash) is passed through verbatim.
proof fn lemma_strip_plain_run(src: Seq<char>, a: int, b: int)
    requires
        0 <= a <= b <= src.len(),
        forall|i: int| a <= i < b ==> (#[trigger] src[i]) != ' ' && src[i] != '\r'
            && src[i] != '\t' && src[i] != '\n' && src[i] != '"' && src[i] != '/',
    ensures
        stripped_text(src, a) == src.subrange(a, b) + stripped_text(src, b),
    decreases b - a,
{
    if a < b {
        lemma_strip_plain_run(src, a + 1, b);
        assert(seq![src[a]] + (src.subrange(a + 1, b) + stripped_text(src, b))
            =~= src.subrange(a, b) + stripped_text(src, b));
    } else {
        assert(src.subrange(a, a) + stripped_text(src, a) =~= stripped_text(src, a));
    }
}

/// Re-joining the lexemes of a successful scan, in order, reproduces the
/// source with whitespace and comments removed.
pub proof fn lemma_scan_rejoins_source(src: Seq<char>)
    requires
        scan_text(src) is Ok,
    ensures
        joined_lexemes(scan_text(src)->Ok_0) == stripped_text(src, 0),
{
    lemma_scan_rejoins_from(src, 0, 1);
}

/// The inductive heart of `lemma_scan_rejoins_source`, from any position.
proof fn lemma_scan_rejoins_from(src: Seq<char>, pos: int, line: nat)
    requires
        0 <= pos <= src.len(),
        scan_from(src, pos, line) is Ok,
    ensures
        joined_lexemes(scan_from(src, pos, line)->Ok_0) == stripped_text(src, pos),
    decreases src.len() - pos,
{
    let len = src.len() as int;
    if pos >= len {
        let ts = scan_from(src, pos, line)->Ok_0;
        assert(ts =~= seq![eof_token(line)]);
        assert(ts.subrange(1, 1) =~= Seq::<TokenModel>::empty());
        assert(ts.subrange(1, 1) == Seq::<TokenModel>::empty());
        assert(joined_lexemes(Seq::<TokenModel>::empty()) == Seq::<char>::empty());
        assert(joined_lexemes(ts) == ts[0].lexeme + joined_lexemes(ts.subrange(1, 1)));
        assert(joined_lexemes(ts) =~= Seq::<char>::empty());
    } else {
        lemma_scan_step_in_range(src, pos, line);
        let c = src[pos];
        match scan_step(src, pos, line) {
            ScanStep::Fail(_) => {},
            ScanStep::Skip(next, l2) => {
                lemma_scan_rejoins_from(src, next, l2);
            },
            ScanStep::Token(tm, next, l2) => {
                lemma_scan_rejoins_from(src, next, l2);
                let rest = scan_from(src, next, l2)->Ok_0;
                let ts = scan_from(src, pos, line)->Ok_0;
                assert(ts =~= seq![tm] + rest);
                assert(ts.subrange(1, ts.len() as int) =~= rest);
                assert(joined_lexemes(ts) == tm.lexeme + joined_lexemes(rest));
                if c == '"' {
                    let e = string_body_end(src, pos + 1);
                } else if is_digit_char(c) {
                    lemma_digits_end(src, pos);
                    let d = digits_end(src, pos);
                    if d + 1 < len && src[d] == '.' && is_digit_char(src[d + 1]) {
                        lemma_digits_end(src, d + 2);
                    }
                    lemma_strip_plain_run(src, pos, next);
                } else if is_alpha_char(c) {
                    lemma_ident_end(src, pos);
                    lemma_strip_plain_run(src, pos, next);
                } else if c == '/' {
                    assert(stripped_text(src, pos) == seq![c] + stripped_text(src, pos + 1));
                    assert(seq![c] =~= src.subrange(pos, pos + 1));
                } else if next == pos + 2 {
                    assert(stripped_text(src, pos) == seq![c] + stripped_text(src, pos + 1));
                    assert(stripped_text(src, pos + 1)
                        == seq![src[pos + 1]] + stripped_text(src, pos + 2));
                    assert(seq![c] + (seq![src[pos + 1]] + stripped_text(src, pos + 2))
                        =~= src.subrange(pos, pos + 2) + stripped_text(src, pos + 2));
                } else {
                    assert(stripped_text(src, pos) == seq![c] + stripped_text(src, pos + 1));
                    assert(seq![c] =~= src.subrange(pos, pos + 1));
                }
            },
        }
    }
}

/// Whether the character is a decimal digit.
pub fn is_digit(c: char) -> (r: bool)
    ensures
        r == is_digit_char(c),
{
    '0' <= c && c <= '9'
}

/// Whether the character begins an identifier or keyword.
pub fn is_alpha(c: char) -> (r: bool)
    ensures
        r == is_alpha_char(c),
{
    ('a' <= c && c <= 'z') || ('A' <= c && c <= 'Z') || c == '_'
}

/// Whether the character may continue an identifier or keyword.
pub fn is_alpha_numeric(c: char) -> (r: bool)
    ensures
        r == is_alpha_numeric_char(c),
{
    is_digit(c) || is_alpha(c)
}

/// The token kind of an identifier lexeme: its keyword, or `Identifier`.
fn keyword_token_type(s: &str) -> (t: TokenType)
    ensures
        t == keyword_type(s@),
{
    if crate::text::str_eq(s, "and") { TokenType::And }
    else if crate::text::str_eq(s, "class") { TokenType::Class }
    else if crate::text::str_eq(s, "else") { TokenType::Else }
    else if crate::text::str_eq(s, "false") { TokenType::False }
    else if crate::text::str_eq(s, "for") { TokenType::For }
    else if crate::text::str_eq(s, "fun") { TokenType::Fun }
    else if crate::text::str_eq(s, "if") { TokenType::If }
    else if crate::text::str_eq(s, "nil") { TokenType::Nil }
    else if crate::text::str_eq(s, "or") { TokenType::Or }
    else if crate::text::str_eq(s, "print") { TokenType::Print }
    else if crate::text::str_eq(s, "return") { TokenType::Return }
    else if crate::text::str_eq(s, "super") { TokenType::Super }
    else if crate::text::str_eq(s, "this") { TokenType::This }
    else if crate::text::str_eq(s, "true") { TokenType::True }
    else if crate::text::str_eq(s, "var") { TokenType::Var }
    else if crate::text::str_eq(s, "while") { TokenType::While }
    else { TokenType::Identifier }
}

/// A token with no literal whose lexeme is `text[start..end]`.
fn plain_tok(text: &str, start: usize, end: usize, t: TokenType, line: usize) -> (tok: Token)
    requires
        start <= end <= text@.len(),
    ensures
        tok@ == plain_token(text@, start as int, end as int, t, line as nat),
{
    Token { t, lexeme: text.substring_char(start, end).to_owned(), literal: None, line }
}

/// The scanner: converts source text into tokens.
pub struct Scanner {}

impl Scanner {
    /// A scanner.
    pub fn new() -> (r: Scanner) {
        Scanner {}
    }

    /// Scan source text into tokens by maximal munch. The result is exactly
    /// what `scan_text` says: the token list ends with an end-of-stream
    /// token, and the first lexical error aborts the scan and is returned
    /// alone.
    pub fn scan_tokens(&self, source: String) -> (r: Result<Vec<Token>, Error>)
        requires
            source@.len() < usize::MAX,
        ensures
            (match r {
                Ok(v) => scan_text(source@) == Ok::<Seq<TokenModel>, ScanErrorModel>(
                    tokens_view(v@),
                ),
                Err(e) => scan_text(source@) == Err::<Seq<TokenModel>, ScanErrorModel>(e@),
            }),
    {
        let text = source.as_str();
        let n = text.unicode_len();
        let mut chars: Vec<char> = Vec::new();
        let mut i: usize = 0;
        while i < n
            invariant
                i <= n,
                n == text@.len(),
                text@ == source@,
                chars@.len() == i as nat,
                forall|j: int| 0 <= j < i ==> chars@[j] == text@[j],
            decreases n - i,
        {
            chars.push(text.get_char(i));
            i = i + 1;
        }
        proof {
            assert(chars@ =~= source@);
        }

        let mut pos: usize = 0;
        let mut line: usize = 1;
        let mut tokens: Vec<Token> = Vec::new();
        while pos < n
            invariant
                pos <= n,
                n == source@.len(),
                n < usize::MAX,
                text@ == source@,
                chars@ == source@,
                line as int <= 1 + pos as int,
                (match scan_from(source@, pos as int, line as nat) {
                    Ok(rest) => scan_text(source@) == Ok::<Seq<TokenModel>, ScanErrorModel>(
                        tokens_view(tokens@) + rest,
                    ),
                    Err(e) => scan_text(source@) == Err::<Seq<TokenModel>, ScanErrorModel>(e),
                }),
            decreases n - pos,
        {
            proof {
                lemma_scan_step_in_range(source@, pos as int, line as nat);
                lemma_newlines_bound(source@, pos as int, pos as int + 1);
            }
            let ghost prev_tokens = tokens@;
            let (res, p2, l2) = scan_token(text, &chars, pos, line);
            match res {
                Err(e) => {
                    return Err(e);
                },
                Ok(opt) => {
                    match opt {
                        Some(tok) => {
                            tokens.push(tok);
                            proof {
                                assert(tokens_view(tokens@) =~= tokens_view(prev_tokens)
                                    + seq![tok@]);
                                match scan_from(source@, p2 as int, l2 as nat) {
                                    Ok(rest2) => {
                                        assert(tokens_view(prev_tokens) + (seq![tok@] + rest2)
                                            =~= tokens_view(tokens@) + rest2);
                                    },
                                    Err(_) => {},
                                }
                            }
                        },
                        None => {},
                    }
                    proof {
                        lemma_newlines_bound(source@, pos as int, p2 as int);
                    }
                    pos = p2;
                    line = l2;
                },
            }
        }
        let ghost prev_tokens = tokens@;
        tokens.push(Token { t: TokenType::Eof, lexeme: String::new(), literal: None, line });
        proof {
            assert(tokens_view(tokens@) =~= tokens_view(prev_tokens) + seq![eof_token(line as nat)]);
            assert(tokens_view(prev_tokens) + seq![eof_token(line as nat)] =~= tokens_view(tokens@));
        }
        Ok(tokens)
    }
}

/// One maximal-munch step: the token or skipped stretch at `pos`, with the
/// position and line after it, or the lexical error; exactly what
/// `scan_step` says.
fn scan_token(text: &str, chars: &Vec<char>, pos: usize, line: usize)
    -> (r: (Result<Option<Token>, Error>, usize, usize))
    requires
        chars@ == text@,
        pos < chars@.len(),
        chars@.len() < usize::MAX,
        line as int <= 1 + pos as int,
    ensures
        (match scan_step(text@, pos as int, line as nat) {
            ScanStep::Token(tm, p2, l2) => (match r.0 {
                Ok(Some(tok)) => tok@ == tm && r.1 == p2 && r.2 == l2,
                _ => false,
            }),
            ScanStep::Skip(p2, l2) => r.0 == Ok::<Option<Token>, Error>(None) && r.1 == p2
                && r.2 == l2,
            ScanStep::Fail(e) => (match r.0 {
                Err(err) => err@ == e,
                _ => false,
            }),
        }),
{
    let n = chars.len();
    let c = chars[pos];
    if c == '(' {
        (Ok(Some(plain_tok(text, pos, pos + 1, TokenType::LeftParen, line))), pos + 1, line)
    } else if c == ')' {
        (Ok(Some(plain_tok(text, pos, pos + 1, TokenType::RightParen, line))), pos + 1, line)
    } else if c == '{' {
        (Ok(Some(plain_tok(text, pos, pos + 1, TokenType::LeftBrace, line))), pos + 1, line)
    } else if c == '}' {
        (Ok(Some(plain_tok(text, pos, pos + 1, TokenType::RightBrace, line))), pos + 1, line)
    } else if c == ',' {
        (Ok(Some(plain_tok(text, pos, pos + 1, TokenType::Comma, line))), pos + 1, line)
    } else if c == '.' {
        (Ok(Some(plain_tok(text, pos, pos + 1, TokenType::Dot, line))), pos + 1, line)
    } else if c == '-' {
        (Ok(Some(plain_tok(text, pos, pos + 1, TokenType::Minus, line))), pos + 1, line)
    } else if c == '+' {
        (Ok(Some(plain_tok(text, pos, pos + 1, TokenType::Plus, line))), pos + 1, line)
    } else if c == ';' {
        (Ok(Some(plain_tok(text, pos, pos + 1, TokenType::Semicolon, line))), pos + 1, line)
    } else if c == '*' {
        (Ok(Some(plain_tok(text, pos, pos + 1, TokenType::Star, line))), pos + 1, line)
    } else if c == '!' {
        if pos + 1 < n && chars[pos + 1] == '=' {
            (Ok(Some(plain_tok(text, pos, pos + 2, TokenType::BangEqual, line))), pos + 2, line)
        } else {
            (Ok(Some(plain_tok(text, pos, pos + 1, TokenType::Bang, line))), pos + 1, line)
        }
    } else if c == '=' {
        if pos + 1 < n && chars[pos + 1] == '=' {
            (Ok(Some(plain_tok(text, pos, pos + 2, TokenType::EqualEqual, line))), pos + 2, line)
        } else {
            (Ok(Some(plain_tok(text, pos, pos + 1, TokenType::Equal, line))), pos + 1, line)
        }
    } else if c == '<' {
        if pos + 1 < n && chars[pos + 1] == '=' {
            (Ok(Some(plain_tok(text, pos, pos + 2, TokenType::LessEqual, line))), pos + 2, line)
        } else {
            (Ok(Some(plain_tok(text, pos, pos + 1, TokenType::Less, line))), pos + 1, line)
        }
    } else if c == '>' {
        if pos + 1 < n && chars[pos + 1] == '=' {
            (Ok(Some(plain_tok(text, pos, pos + 2, TokenType::GreaterEqual, line))), pos + 2, line)
        } else {
            (Ok(Some(plain_tok(text, pos, pos + 1, TokenType::Greater, line))), pos + 1, line)
        }
    } else if c == '/' {
        if pos + 1 < n && chars[pos + 1] == '/' {
            let mut cur = pos + 2;
            while cur < n && chars[cur] != '\n'
                invariant
                    pos + 2 <= cur <= n,
                    n == chars@.len(),
                    comment_end(chars@, pos as int + 2) == comment_end(chars@, cur as int),
                decreases n - cur,
            {
                cur = cur + 1;
            }
            (Ok(None), cur, line)
        } else {
            (Ok(Some(plain_tok(text, pos, pos + 1, TokenType::Slash, line))), pos + 1, line)
        }
    } else if c == ' ' || c == '\r' || c == '\t' {
        (Ok(None), pos + 1, line)
    } else if c == '\n' {
        (Ok(None), pos + 1, line + 1)
    } else if c == '"' {
        scan_string(text, chars, pos, line)
    } else if is_digit(c) {
        scan_number(text, chars, pos, line)
    } else if is_alpha(c) {
        scan_identifier(text, chars, pos, line)
    } else {
        (Err(Error::UnexpectedCharacterError { line, c }), pos + 1, line)
    }
}

/// Scan a string literal whose opening quote stands at `pos`: the token, or
/// the unterminated-string error.
fn scan_string(text: &str, chars: &Vec<char>, pos: usize, line: usize)
    -> (r: (Result<Option<Token>, Error>, usize, usize))
    requires
        chars@ == text@,
        pos < chars@.len(),
        chars@.len() < usize::MAX,
        line as int <= 1 + pos as int,
        chars@[pos as int] == '"',
    ensures
        (match scan_step(text@, pos as int, line as nat) {
            ScanStep::Token(tm, p2, l2) => (match r.0 {
                Ok(Some(tok)) => tok@ == tm && r.1 == p2 && r.2 == l2,
                _ => false,
            }),
            ScanStep::Skip(p2, l2) => false,
            ScanStep::Fail(e) => (match r.0 {
                Err(err) => err@ == e,
                _ => false,
            }),
        }),
{
    let n = chars.len();
    let src = Ghost(chars@);
    let mut cur = pos + 1;
    let mut l = line;
    while cur < n && chars[cur] != '"'
        invariant
            pos + 1 <= cur <= n,
            n == chars@.len(),
            string_body_end(chars@, pos as int + 1) == string_body_end(chars@, cur as int),
            l as nat == line as nat + newlines_in(chars@, pos as int + 1, cur as int),
            line as int <= 1 + pos as int,
            l as int <= if cur == pos + 1 { line as int } else { cur as int },
        decreases n - cur,
    {
        proof {
            lemma_newlines_snoc(chars@, pos as int + 1, cur as int);
            lemma_newlines_bound(chars@, pos as int + 1, cur as int + 1);
        }
        if chars[cur] == '\n' {
            l = l + 1;
        }
        cur = cur + 1;
    }
    if cur >= n {
        (Err(Error::UnterminatedStringError { line: l }), cur, l)
    } else {
        let lexeme = text.substring_char(pos, cur + 1).to_owned();
        let body = text.substring_char(pos + 1, cur).to_owned();
        let tok = Token {
            t: TokenType::String,
            lexeme,
            literal: Some(Literal::String(body)),
            line: l,
        };
        (Ok(Some(tok)), cur + 1, l)
    }
}

/// Scan a number literal whose first digit stands at `pos`.
fn scan_number(text: &str, chars: &Vec<char>, pos: usize, line: usize)
    -> (r: (Result<Option<Token>, Error>, usize, usize))
    requires
        chars@ == text@,
        pos < chars@.len(),
        chars@.len() < usize::MAX,
        is_digit_char(chars@[pos as int]),
    ensures
        (match scan_step(text@, pos as int, line as nat) {
            ScanStep::Token(tm, p2, l2) => (match r.0 {
                Ok(Some(tok)) => tok@ == tm && r.1 == p2 && r.2 == l2,
                _ => false,
            }),
            _ => false,
        }),
{
    let n = chars.len();
    let mut cur = pos;
    while cur < n && is_digit(chars[cur])
        invariant
            pos <= cur <= n,
            n == chars@.len(),
            digits_end(chars@, pos as int) == digits_end(chars@, cur as int),
        decreases n - cur,
    {
        cur = cur + 1;
    }
    let mut end = cur;
    if cur + 1 < n && chars[cur] == '.' && is_digit(chars[cur + 1]) {
        end = cur + 2;
        while end < n && is_digit(chars[end])
            invariant
                cur + 2 <= end <= n,
                n == chars@.len(),
                digits_end(chars@, cur as int + 2) == digits_end(chars@, end as int),
            decreases n - end,
        {
            end = end + 1;
        }
    }
    let lexeme = text.substring_char(pos, end).to_owned();
    let bits = match crate::number::apf_parse(lexeme.as_str()) {
        Some(b) => b,
        None => 0,
    };
    let tok = Token {
        t: TokenType::Number,
        lexeme,
        literal: Some(Literal::Number(bits)),
        line,
    };
    (Ok(Some(tok)), end, line)
}

/// Scan an identifier or keyword whose first character stands at `pos`.
fn scan_identifier(text: &str, chars: &Vec<char>, pos: usize, line: usize)
    -> (r: (Result<Option<Token>, Error>, usize, usize))
    requires
        chars@ == text@,
        pos < chars@.len(),
        chars@.len() < usize::MAX,
        is_alpha_char(chars@[pos as int]),
    ensures
        (match scan_step(text@, pos as int, line as nat) {
            ScanStep::Token(tm, p2, l2) => (match r.0 {
                Ok(Some(tok)) => tok@ == tm && r.1 == p2 && r.2 == l2,
                _ => false,
            }),
            _ => false,
        }),
{
    let n = chars.len();
    let mut cur = pos;
    while cur < n && is_alpha_numeric(chars[cur])
        invariant
            pos <= cur <= n,
            n == chars@.len(),
            ident_end(chars@, pos as int) == ident_end(chars@, cur as int),
        decreases n - cur,
    {
        cur = cur + 1;
    }
    let lexeme = text.substring_char(pos, cur).to_owned();
    let t = keyword_token_type(lexeme.as_str());
    let literal = match t {
        TokenType::Nil => Literal::Nil,
        TokenType::True => Literal::Boolean(true),
        TokenType::False => Literal::Boolean(false),
        _ => Literal::Identifier(lexeme.clone()),
    };
    let tok = Token { t, lexeme, literal: Some(literal), line };
    (Ok(Some(tok)), cur, line)
}

} // verus!
