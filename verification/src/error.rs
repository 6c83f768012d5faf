//! Runtime errors and the shared rendering of every error family:
//! all errors render to the form `[line N] Error: <message>`.
use vstd::prelude::*;
use vstd::string::StringExecFns;

use crate::text::{dec_digits, usize_to_string};
use crate::token::{Token, TokenModel};

verus! {

/// The rendered form shared by every error: `[line N] Error: <message>`.
pub open spec fn error_text(line: nat, message: Seq<char>) -> Seq<char> {
    "[line "@ + dec_digits(line) + "] Error: "@ + message
}

/// Render an error line: `[line N] Error: <message>`.
pub fn format_error(line: usize, message: &str) -> (r: String)
    ensures
        r@ == error_text(line as nat, message@),
{
    let mut out = String::from_str("[line ");
    let digits = usize_to_string(line);
    out.append(digits.as_str());
    out.append("] Error: ");
    out.append(message);
    out
}

/// Append a message and a newline to an output sink.
pub fn report(message: &str, out: &mut String)
    ensures
        final(out)@ == old(out)@ + message@ + "\n"@,
{
    out.append(message);
    out.append("\n");
}

/// An evaluation failure; each variant carries the operator or name token
/// whose evaluation failed, for its source line.
#[derive(Debug, Clone, PartialEq)]
pub enum RuntimeError {
    OperandMustBeANumber { token: Token },
    OperandsMustBeNumbers { token: Token },
    OperandsMustBeTwoNumbersOrTwoStrings { token: Token },
    UndefinedVariable { token: Token },
}

/// Mathematical model of a `RuntimeError`.
pub enum RuntimeErrorModel {
    OperandMustBeANumber { token: TokenModel },
    OperandsMustBeNumbers { token: TokenModel },
    OperandsMustBeTwoNumbersOrTwoStrings { token: TokenModel },
    UndefinedVariable { token: TokenModel },
}

impl View for RuntimeError {
    type V = RuntimeErrorModel;

    open spec fn view(&self) -> RuntimeErrorModel {
        match self {
            RuntimeError::OperandMustBeANumber { token } =>
                RuntimeErrorModel::OperandMustBeANumber { token: token@ },
            RuntimeError::OperandsMustBeNumbers { token } =>
                RuntimeErrorModel::OperandsMustBeNumbers { token: token@ },
            RuntimeError::OperandsMustBeTwoNumbersOrTwoStrings { token } =>
                RuntimeErrorModel::OperandsMustBeTwoNumbersOrTwoStrings { token: token@ },
            RuntimeError::UndefinedVariable { token } =>
                RuntimeErrorModel::UndefinedVariable { token: token@ },
        }
    }
}

/// The rendered form of a runtime error.
pub open spec fn runtime_error_text(e: RuntimeErrorModel) -> Seq<char> {
    match e {
        RuntimeErrorModel::OperandMustBeANumber { token } =>
            error_text(token.line, "operand must be a number"@),
        RuntimeErrorModel::OperandsMustBeNumbers { token } =>
            error_text(token.line, "operands must be numbers"@),
        RuntimeErrorModel::OperandsMustBeTwoNumbersOrTwoStrings { token } =>
            error_text(token.line, "operands must be two numbers or two strings"@),
        RuntimeErrorModel::UndefinedVariable { token } =>
            error_text(token.line, "undefined variable '"@ + token.lexeme + "'"@),
    }
}

impl RuntimeError {
    /// Render the error as `[line N] Error: <message>`.
    pub fn message(&self) -> (r: String)
        ensures
            r@ == runtime_error_text(self@),
    {
        match self {
            RuntimeError::OperandMustBeANumber { token } =>
                format_error(token.line, "operand must be a number"),
            RuntimeError::OperandsMustBeNumbers { token } =>
                format_error(token.line, "operands must be numbers"),
            RuntimeError::OperandsMustBeTwoNumbersOrTwoStrings { token } =>
                format_error(token.line, "operands must be two numbers or two strings"),
            RuntimeError::UndefinedVariable { token } => {
                let mut msg = String::from_str("undefined variable '");
                msg.append(token.lexeme.as_str());
                msg.append("'");
                format_error(token.line, msg.as_str())
            },
        }
    }
}

} // verus!
