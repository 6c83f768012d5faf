//! The driver: scan, parse and evaluate one source text, with the three
//! outcomes a caller must distinguish kept apart — a lexical or syntax
//! failure, a successful parse followed by a runtime failure, and full
//! success.
use vstd::prelude::*;
use vstd::string::StringExecFns;

use crate::error::{RuntimeError, RuntimeErrorModel, runtime_error_text, report};
use crate::expression::pretty_text;
use crate::interpreter::{
    Interpreter, initial_env, spec_eval, spec_run_statements,
};
use crate::parser::{
    self, ParseErrorModel, lemma_scanned_tokens_wf, parse_error_text, spec_parse_expression,
    spec_parse_program,
};
use crate::scanner::{self, ScanErrorModel, Scanner, scan_error_text, scan_text};
use crate::value::{Value, ValueModel, value_display};

verus! {

/// A failure of any of the three stages.
#[derive(Debug, PartialEq)]
pub enum Error {
    Scan(scanner::Error),
    Parse(parser::Error),
    Runtime(RuntimeError),
}

/// Mathematical model of a driver error.
pub enum LoxErrorModel {
    Scan(ScanErrorModel),
    Parse(ParseErrorModel),
    Runtime(RuntimeErrorModel),
}

impl View for Error {
    type V = LoxErrorModel;

    open spec fn view(&self) -> LoxErrorModel {
        match self {
            Error::Scan(e) => LoxErrorModel::Scan(e@),
            Error::Parse(e) => LoxErrorModel::Parse(e@),
            Error::Runtime(e) => LoxErrorModel::Runtime(e@),
        }
    }
}

/// The rendered form of a driver error: its stage's own rendering.
pub open spec fn lox_error_text(e: LoxErrorModel) -> Seq<char> {
    match e {
        LoxErrorModel::Scan(se) => scan_error_text(se),
        LoxErrorModel::Parse(pe) => parse_error_text(pe),
        LoxErrorModel::Runtime(re) => runtime_error_text(re),
    }
}

impl Error {
    /// Render the error as `[line N] Error: <message>`.
    pub fn message(&self) -> (r: String)
        ensures
            r@ == lox_error_text(self@),
    {
        match self {
            Error::Scan(e) => e.message(),
            Error::Parse(e) => e.message(),
            Error::Runtime(e) => e.message(),
        }
    }
}

/// What running one expression source yields: the value, or the first
/// stage's error.
pub open spec fn spec_run(src: Seq<char>) -> Result<ValueModel, LoxErrorModel> {
    match scan_text(src) {
        Err(se) => Err(LoxErrorModel::Scan(se)),
        Ok(toks) => match spec_parse_expression(toks, 0) {
            Err((pe, _)) => Err(LoxErrorModel::Parse(pe)),
            Ok((em, _)) => match spec_eval(em, initial_env()) {
                Err(re) => Err(LoxErrorModel::Runtime(re)),
                Ok((vm, _)) => Ok(vm),
            },
        },
    }
}

/// The driver.
pub struct Lox {
    scanner: Scanner,
    interpreter: Interpreter,
}

impl Lox {
    /// A driver.
    pub fn new() -> (r: Lox) {
        let scanner = Scanner::new();
        let interpreter = Interpreter::new();
        Lox { scanner, interpreter }
    }

    /// Scan, parse and evaluate one expression source; exactly what
    /// `spec_run` says.
    pub fn run(&self, source: String) -> (r: Result<Value, Error>)
        requires
            source@.len() < usize::MAX,
        ensures
            (match spec_run(source@) {
                Ok(vm) => (match r {
                    Ok(v) => v@ == vm,
                    _ => false,
                }),
                Err(em) => (match r {
                    Err(e) => e@ == em,
                    _ => false,
                }),
            }),
    {
        let ghost src = source@;
        let tokens = match self.scanner.scan_tokens(source) {
            Ok(t) => t,
            Err(e) => {
                return Err(Error::Scan(e));
            },
        };
        proof {
            lemma_scanned_tokens_wf(src);
        }
        let expression = match parser::parse_expression(tokens) {
            Ok(e) => e,
            Err(e) => {
                return Err(Error::Parse(e));
            },
        };
        match self.interpreter.interpret(&expression) {
            Ok(v) => Ok(v),
            Err(e) => Err(Error::Runtime(e)),
        }
    }

    /// Scan and parse one expression source and render its tree.
    pub fn dump_ast(&self, source: String) -> (r: Result<String, Error>)
        requires
            source@.len() < usize::MAX,
        ensures
            (match scan_text(source@) {
                Err(se) => (match r {
                    Err(e) => e@ == LoxErrorModel::Scan(se),
                    _ => false,
                }),
                Ok(toks) => (match spec_parse_expression(toks, 0) {
                    Err((pe, _)) => (match r {
                        Err(e) => e@ == LoxErrorModel::Parse(pe),
                        _ => false,
                    }),
                    Ok((em, _)) => (match r {
                        Ok(text) => text@ == pretty_text(em),
                        _ => false,
                    }),
                }),
            }),
    {
        let ghost src = source@;
        let tokens = match self.scanner.scan_tokens(source) {
            Ok(t) => t,
            Err(e) => {
                return Err(Error::Scan(e));
            },
        };
        proof {
            lemma_scanned_tokens_wf(src);
        }
        let expression = match parser::parse_expression(tokens) {
            Ok(e) => e,
            Err(e) => {
                return Err(Error::Parse(e));
            },
        };
        Ok(crate::expression::pretty_print(&expression))
    }

    /// Scan, parse and execute one program source, writing printed output
    /// to the sink: statement by statement, stopping at the first failure.
    /// A scan or parse failure writes nothing.
    pub fn run_program(&self, source: String, output: &mut String) -> (r: Result<(), Error>)
        requires
            source@.len() < usize::MAX,
        ensures
            (match scan_text(source@) {
                Err(se) => final(output)@ == old(output)@ && (match r {
                    Err(e) => e@ == LoxErrorModel::Scan(se),
                    _ => false,
                }),
                Ok(toks) => (match spec_parse_program(toks, 0) {
                    Err((pe, _)) => final(output)@ == old(output)@ && (match r {
                        Err(e) => e@ == LoxErrorModel::Parse(pe),
                        _ => false,
                    }),
                    Ok(ms) => ({
                        let run = spec_run_statements(ms, initial_env());
                        final(output)@ == old(output)@ + run.0 && (match run.1 {
                            Ok(_) => r is Ok,
                            Err(re) => (match r {
                                Err(e) => e@ == LoxErrorModel::Runtime(re),
                                _ => false,
                            }),
                        })
                    }),
                }),
            }),
    {
        let ghost src = source@;
        let tokens = match self.scanner.scan_tokens(source) {
            Ok(t) => t,
            Err(e) => {
                return Err(Error::Scan(e));
            },
        };
        proof {
            lemma_scanned_tokens_wf(src);
        }
        let statements = match parser::parse(tokens) {
            Ok(s) => s,
            Err(e) => {
                return Err(Error::Parse(e));
            },
        };
        proof {
            assert forall|i: int| 0 <= i < statements@.len()
                implies crate::statement::wf_statement((#[trigger] statements@[i])@) by {
                assert(crate::statement::statements_view(statements@)[i] == statements@[i]@);
            }
        }
        match crate::interpreter::interpret(&statements, output) {
            Ok(_) => Ok(()),
            Err(e) => Err(Error::Runtime(e)),
        }
    }
}

/// How a run failed, for the caller's exit-code selection: a runtime
/// failure after a successful parse, or any earlier (static) failure.
#[derive(Debug, PartialEq)]
pub enum ExecErrorType {
    RuntimeError,
    GeneralError,
}

/// The outcome of `run_with_result`: everything written, and how the run
/// failed if it did.
pub struct ExecutionResult {
    pub output: String,
    pub err: Option<ExecErrorType>,
}

/// Run one expression source and write the value's display form, or the
/// error's rendering, to the output sink, with a newline. The returned kind
/// distinguishes a runtime failure from a lexical or syntax failure; the
/// failure itself is already written to the sink.
pub fn run_with_output(source: String, output: &mut String) -> (r: Option<ExecErrorType>)
    requires
        source@.len() < usize::MAX,
    ensures
        (match spec_run(source@) {
            Ok(vm) => final(output)@ == old(output)@ + value_display(vm) + "\n"@
                && r is None,
            Err(em) => final(output)@ == old(output)@ + lox_error_text(em) + "\n"@
                && (match em {
                    LoxErrorModel::Runtime(_) => r == Some(ExecErrorType::RuntimeError),
                    _ => r == Some(ExecErrorType::GeneralError),
                }),
        }),
{
    let lox = Lox::new();
    match lox.run(source) {
        Ok(value) => {
            let text = value.display_string();
            report(text.as_str(), output);
            None
        },
        Err(e) => {
            let msg = e.message();
            report(msg.as_str(), output);
            match e {
                Error::Runtime(_) => Some(ExecErrorType::RuntimeError),
                _ => Some(ExecErrorType::GeneralError),
            }
        },
    }
}

/// Run one expression source against an empty sink and hand back what was
/// written together with how the run failed, if it did.
pub fn run_with_result(source: String) -> (r: ExecutionResult)
    requires
        source@.len() < usize::MAX,
    ensures
        (match spec_run(source@) {
            Ok(vm) => r.output@ == value_display(vm) + "\n"@ && r.err is None,
            Err(em) => r.output@ == lox_error_text(em) + "\n"@
                && (match em {
                    LoxErrorModel::Runtime(_) => r.err == Some(ExecErrorType::RuntimeError),
                    _ => r.err == Some(ExecErrorType::GeneralError),
                }),
        }),
{
    let mut output = String::new();
    let err = run_with_output(source, &mut output);
    proof {
        match spec_run(source@) {
            Ok(vm) => {
                assert(Seq::<char>::empty() + value_display(vm) + "\n"@
                    =~= value_display(vm) + "\n"@);
            },
            Err(em) => {
                assert(Seq::<char>::empty() + lox_error_text(em) + "\n"@
                    =~= lox_error_text(em) + "\n"@);
            },
        }
    }
    ExecutionResult { output, err }
}

} // verus!
