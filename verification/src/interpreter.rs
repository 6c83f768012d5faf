//! Tree-walking evaluation: expressions to values, statements to output,
//! stopping at the first runtime error.
//!
//! The evaluator's behaviour is specified by `spec_eval` (expressions) and
//! `spec_run_statements` (programs): truthiness, type-strict equality,
//! numeric and string operator overloading, and the chained-scope variable
//! rules, all over the models of the values and the environment.
use vstd::prelude::*;
use vstd::string::StringExecFns;

use crate::environment::{
    EnvModel, Environment, env_assign_model, env_define_model, env_lookup,
};
use crate::error::{RuntimeError, RuntimeErrorModel};
use crate::expression::{Expression, ExpressionModel, wf_expression};
use crate::number::{
    num_add, num_add_exec, num_div, num_div_exec, num_ge, num_ge_exec, num_gt, num_gt_exec,
    num_le, num_le_exec, num_lt, num_lt_exec, num_mul, num_mul_exec, num_neg, num_neg_exec,
    num_sub, num_sub_exec,
};
use crate::statement::{Statement, StatementModel, statements_view, wf_statement};
use crate::token::{Token, TokenModel, TokenType, name_of_token};
use crate::value::{Value, ValueModel, is_equal, value_display, value_truthy, values_equal};

verus! {

/// The environment one evaluation run starts with: a single empty global
/// scope, alive for the duration of the run.
pub open spec fn initial_env() -> EnvModel {
    seq![Map::<Seq<char>, ValueModel>::empty()]
}

/// What a binary operator yields on two evaluated operands: `+` adds
/// numbers or concatenates strings; `- * /` and the comparisons require two
/// numbers; `==`/`!=` are type-strict equality on any values.
pub open spec fn spec_apply_binary(op: TokenModel, l: ValueModel, r: ValueModel)
    -> Result<ValueModel, RuntimeErrorModel>
{
    if op.t == TokenType::Plus {
        match (l, r) {
            (ValueModel::Number(a), ValueModel::Number(b)) => Ok(ValueModel::Number(num_add(a, b))),
            (ValueModel::Str(a), ValueModel::Str(b)) => Ok(ValueModel::Str(a + b)),
            _ => Err(RuntimeErrorModel::OperandsMustBeTwoNumbersOrTwoStrings { token: op }),
        }
    } else if op.t == TokenType::EqualEqual {
        Ok(ValueModel::Boolean(values_equal(l, r)))
    } else if op.t == TokenType::BangEqual {
        Ok(ValueModel::Boolean(!values_equal(l, r)))
    } else {
        match (l, r) {
            (ValueModel::Number(a), ValueModel::Number(b)) => {
                if op.t == TokenType::Minus { Ok(ValueModel::Number(num_sub(a, b))) }
                else if op.t == TokenType::Slash { Ok(ValueModel::Number(num_div(a, b))) }
                else if op.t == TokenType::Star { Ok(ValueModel::Number(num_mul(a, b))) }
                else if op.t == TokenType::Greater { Ok(ValueModel::Boolean(num_gt(a, b))) }
                else if op.t == TokenType::GreaterEqual { Ok(ValueModel::Boolean(num_ge(a, b))) }
                else if op.t == TokenType::Less { Ok(ValueModel::Boolean(num_lt(a, b))) }
                else { Ok(ValueModel::Boolean(num_le(a, b))) }
            },
            _ => Err(RuntimeErrorModel::OperandsMustBeNumbers { token: op }),
        }
    }
}

/// What evaluating an expression yields: the value and the environment
/// after it (an assignment writes through), or the first runtime error.
pub open spec fn spec_eval(e: ExpressionModel, env: EnvModel)
    -> Result<(ValueModel, EnvModel), RuntimeErrorModel>
    decreases e,
{
    match e {
        ExpressionModel::Literal { value } => {
            match value {
                crate::token::LiteralModel::Nil => Ok((ValueModel::Nil, env)),
                crate::token::LiteralModel::Boolean(b) => Ok((ValueModel::Boolean(b), env)),
                crate::token::LiteralModel::Number(bits) => Ok((ValueModel::Number(bits), env)),
                crate::token::LiteralModel::Str(s) => Ok((ValueModel::Str(s), env)),
                // never reached: literal nodes never carry identifiers
                // (`wf_expression`)
                crate::token::LiteralModel::Identifier(_) => Ok((ValueModel::Nil, env)),
            }
        },
        ExpressionModel::Grouping { expr } => spec_eval(*expr, env),
        ExpressionModel::Unary { operator, right } => {
            match spec_eval(*right, env) {
                Err(er) => Err(er),
                Ok((v, env1)) => {
                    if operator.t == TokenType::Bang {
                        Ok((ValueModel::Boolean(!value_truthy(v)), env1))
                    } else {
                        match v {
                            ValueModel::Number(bits) => Ok((ValueModel::Number(num_neg(bits)), env1)),
                            _ => Err(RuntimeErrorModel::OperandMustBeANumber { token: operator }),
                        }
                    }
                },
            }
        },
        ExpressionModel::Binary { left, operator, right } => {
            match spec_eval(*left, env) {
                Err(er) => Err(er),
                Ok((lv, env1)) => {
                    match spec_eval(*right, env1) {
                        Err(er) => Err(er),
                        Ok((rv, env2)) => {
                            match spec_apply_binary(operator, lv, rv) {
                                Ok(v) => Ok((v, env2)),
                                Err(er) => Err(er),
                            }
                        },
                    }
                },
            }
        },
        ExpressionModel::Variable { name } => {
            match env_lookup(env, name_of_token(name)) {
                Some(v) => Ok((v, env)),
                None => Err(RuntimeErrorModel::UndefinedVariable { token: name }),
            }
        },
        ExpressionModel::Assign { name, value } => {
            match spec_eval(*value, env) {
                Err(er) => Err(er),
                Ok((v, env1)) => {
                    match env_assign_model(env1, name_of_token(name), v) {
                        Some(env2) => Ok((v, env2)),
                        None => Err(RuntimeErrorModel::UndefinedVariable { token: name }),
                    }
                },
            }
        },
    }
}

/// What executing one statement yields: the text it prints and the
/// environment after it, or the text printed before the first error and
/// the error.
pub open spec fn spec_execute_statement(s: StatementModel, env: EnvModel)
    -> (Seq<char>, Result<EnvModel, RuntimeErrorModel>)
{
    match s {
        StatementModel::ExpressionStatement { expr } => {
            match spec_eval(expr, env) {
                Ok((_, env1)) => (Seq::empty(), Ok(env1)),
                Err(er) => (Seq::empty(), Err(er)),
            }
        },
        StatementModel::Print { expr } => {
            match spec_eval(expr, env) {
                Ok((v, env1)) => (value_display(v) + "\n"@, Ok(env1)),
                Err(er) => (Seq::empty(), Err(er)),
            }
        },
        StatementModel::Var { name, initializer } => {
            let init = match initializer {
                Some(e) => spec_eval(e, env),
                None => Ok((ValueModel::Nil, env)),
            };
            match init {
                Ok((v, env1)) => (
                    Seq::empty(),
                    Ok(env_define_model(env1, name_of_token(name), v)),
                ),
                Err(er) => (Seq::empty(), Err(er)),
            }
        },
    }
}

/// What executing statements in order yields: everything printed up to the
/// end or the first error, and the final environment or that error.
pub open spec fn spec_run_statements(ss: Seq<StatementModel>, env: EnvModel)
    -> (Seq<char>, Result<EnvModel, RuntimeErrorModel>)
    decreases ss.len(),
{
    if ss.len() == 0 {
        (Seq::empty(), Ok(env))
    } else {
        let first = spec_execute_statement(ss[0], env);
        match first.1 {
            Err(er) => (first.0, Err(er)),
            Ok(env1) => {
                let rest = spec_run_statements(ss.subrange(1, ss.len() as int), env1);
                (first.0 + rest.0, rest.1)
            },
        }
    }
}

/// Truthiness: `nil` and `false` are falsy, every other value is truthy.
fn is_truthy(value: &Value) -> (r: bool)
    ensures
        r == value_truthy(value@),
{
    match value {
        Value::Nil => false,
        Value::Boolean(b) => *b,
        _ => true,
    }
}

/// Require a number operand, else the unary-operator type error.
fn check_number_operand(operand: &Value, operator: &Token) -> (r: Result<(), RuntimeError>)
    ensures
        (match r {
            Ok(_) => operand@ is Number,
            Err(e) => !(operand@ is Number) && e@ == RuntimeErrorModel::OperandMustBeANumber {
                token: operator@,
            },
        }),
{
    if operand.is_number() {
        Ok(())
    } else {
        Err(RuntimeError::OperandMustBeANumber { token: operator.duplicate() })
    }
}

/// Require two number operands, else the binary-operator type error.
fn check_number_operands(left: &Value, right: &Value, operator: &Token)
    -> (r: Result<(), RuntimeError>)
    ensures
        (match r {
            Ok(_) => left@ is Number && right@ is Number,
            Err(e) => !(left@ is Number && right@ is Number)
                && e@ == RuntimeErrorModel::OperandsMustBeNumbers { token: operator@ },
        }),
{
    if left.is_number() && right.is_number() {
        Ok(())
    } else {
        Err(RuntimeError::OperandsMustBeNumbers { token: operator.duplicate() })
    }
}

/// Apply a binary operator to two evaluated operands; exactly what
/// `spec_apply_binary` says.
fn apply_binary(operator: &Token, left: Value, right: Value) -> (r: Result<Value, RuntimeError>)
    ensures
        (match spec_apply_binary(operator@, left@, right@) {
            Ok(vm) => (match r {
                Ok(v) => v@ == vm,
                _ => false,
            }),
            Err(em) => (match r {
                Err(e) => e@ == em,
                _ => false,
            }),
        }),
{
    if operator.t == TokenType::Plus {
        if left.is_number() && right.is_number() {
            Ok(Value::Number(num_add_exec(left.unwrap_number(), right.unwrap_number())))
        } else if left.is_string() && right.is_string() {
            let mut s = String::from_str(left.unwrap_string());
            s.append(right.unwrap_string());
            Ok(Value::String(s))
        } else {
            Err(RuntimeError::OperandsMustBeTwoNumbersOrTwoStrings {
                token: operator.duplicate(),
            })
        }
    } else if operator.t == TokenType::EqualEqual {
        Ok(Value::Boolean(is_equal(&left, &right)))
    } else if operator.t == TokenType::BangEqual {
        Ok(Value::Boolean(!is_equal(&left, &right)))
    } else {
        check_number_operands(&left, &right, operator)?;
        let a = left.unwrap_number();
        let b = right.unwrap_number();
        if operator.t == TokenType::Minus {
            Ok(Value::Number(num_sub_exec(a, b)))
        } else if operator.t == TokenType::Slash {
            Ok(Value::Number(num_div_exec(a, b)))
        } else if operator.t == TokenType::Star {
            Ok(Value::Number(num_mul_exec(a, b)))
        } else if operator.t == TokenType::Greater {
            Ok(Value::Boolean(num_gt_exec(a, b)))
        } else if operator.t == TokenType::GreaterEqual {
            Ok(Value::Boolean(num_ge_exec(a, b)))
        } else if operator.t == TokenType::Less {
            Ok(Value::Boolean(num_lt_exec(a, b)))
        } else {
            Ok(Value::Boolean(num_le_exec(a, b)))
        }
    }
}

/// Evaluate an expression in the given environment; exactly what
/// `spec_eval` says.
fn evaluate(expr: &Expression, env: &mut Environment) -> (r: Result<Value, RuntimeError>)
    requires
        wf_expression(expr@),
        old(env).wf(),
    ensures
        final(env).wf(),
        (match spec_eval(expr@, old(env)@) {
            Ok((vm, em)) => (match r {
                Ok(v) => v@ == vm && final(env)@ == em,
                _ => false,
            }),
            Err(em) => (match r {
                Err(e) => e@ == em,
                _ => false,
            }),
        }),
    decreases expr,
{
    match expr {
        Expression::Literal { value } => {
            match value {
                crate::token::Literal::Nil => Ok(Value::Nil),
                crate::token::Literal::Boolean(b) => Ok(Value::Boolean(*b)),
                crate::token::Literal::Number(bits) => Ok(Value::Number(*bits)),
                crate::token::Literal::String(s) => Ok(Value::String(s.clone())),
                crate::token::Literal::Identifier(_) => Ok(Value::Nil),
            }
        },
        Expression::Grouping { expr } => evaluate(expr, env),
        Expression::Unary { operator, right } => {
            let v = evaluate(right, env)?;
            if operator.t == TokenType::Bang {
                Ok(Value::Boolean(!is_truthy(&v)))
            } else {
                check_number_operand(&v, operator)?;
                Ok(Value::Number(num_neg_exec(v.unwrap_number())))
            }
        },
        Expression::Binary { left, operator, right } => {
            let lv = evaluate(left, env)?;
            let rv = evaluate(right, env)?;
            apply_binary(operator, lv, rv)
        },
        Expression::Variable { name } => env.get(name),
        Expression::Assign { name, value } => {
            let v = evaluate(value, env)?;
            match env.assign(name, v.duplicate()) {
                Ok(_) => Ok(v),
                Err(e) => Err(e),
            }
        },
    }
}

/// Execute one statement: evaluate its expressions and write any printed
/// text to the output sink; exactly what `spec_execute_statement` says.
fn execute(s: &Statement, env: &mut Environment, output: &mut String)
    -> (r: Result<(), RuntimeError>)
    requires
        wf_statement(s@),
        old(env).wf(),
    ensures
        final(env).wf(),
        ({
            let step = spec_execute_statement(s@, old(env)@);
            final(output)@ == old(output)@ + step.0 && (match step.1 {
                Ok(em) => r is Ok && final(env)@ == em,
                Err(em) => (match r {
                    Err(e) => e@ == em,
                    _ => false,
                }),
            })
        }),
{
    match s {
        Statement::ExpressionStatement { expr } => {
            let ghost pre = output@;
            match evaluate(expr, env) {
                Ok(_) => {
                    proof {
                        assert(output@ =~= pre + Seq::<char>::empty());
                    }
                    Ok(())
                },
                Err(e) => {
                    proof {
                        assert(output@ =~= pre + Seq::<char>::empty());
                    }
                    Err(e)
                },
            }
        },
        Statement::Print { expr } => {
            let ghost pre = output@;
            match evaluate(expr, env) {
                Ok(v) => {
                    let text = v.display_string();
                    output.append(text.as_str());
                    output.append("\n");
                    Ok(())
                },
                Err(e) => {
                    proof {
                        assert(output@ =~= pre + Seq::<char>::empty());
                    }
                    Err(e)
                },
            }
        },
        Statement::Var { name, initializer } => {
            let ghost pre = output@;
            let v = match initializer {
                Some(e) => evaluate(e, env),
                None => Ok(Value::Nil),
            };
            proof {
                assert(output@ =~= pre + Seq::<char>::empty());
            }
            match v {
                Ok(v) => {
                    env.define(name, v);
                    Ok(())
                },
                Err(e) => Err(e),
            }
        },
    }
}

/// Execute statements in order against a fresh global scope, writing all
/// printed text to the output sink and stopping at the first runtime
/// error; exactly what `spec_run_statements` says.
pub fn interpret(statements: &Vec<Statement>, output: &mut String) -> (r: Result<(), RuntimeError>)
    requires
        forall|i: int| 0 <= i < statements@.len()
            ==> wf_statement((#[trigger] statements@[i])@),
    ensures
        ({
            let run = spec_run_statements(statements_view(statements@), initial_env());
            final(output)@ == old(output)@ + run.0 && (match run.1 {
                Ok(_) => r is Ok,
                Err(em) => (match r {
                    Err(e) => e@ == em,
                    _ => false,
                }),
            })
        }),
{
    let ghost ms = statements_view(statements@);
    let mut env = Environment::new();
    proof {
        assert(env@ == initial_env());
        assert(ms.subrange(0, ms.len() as int) =~= ms);
    }
    let n = statements.len();
    let mut i: usize = 0;
    let ghost mut produced: Seq<char> = Seq::empty();
    proof {
        assert(output@ =~= old(output)@ + produced);
    }
    while i < n
        invariant
            i <= n,
            n == statements@.len(),
            ms == statements_view(statements@),
            env.wf(),
            forall|j: int| 0 <= j < statements@.len()
                ==> wf_statement((#[trigger] statements@[j])@),
            output@ == old(output)@ + produced,
            ({
                let run = spec_run_statements(ms, initial_env());
                let rem = spec_run_statements(ms.subrange(i as int, ms.len() as int), env@);
                run.0 == produced + rem.0 && run.1 == rem.1
            }),
        decreases n - i,
    {
        let ghost env_pre = env@;
        let ghost out_pre = output@;
        let res = execute(&statements[i], &mut env, output);
        proof {
            let rem_pre = ms.subrange(i as int, ms.len() as int);
            assert(rem_pre[0] == ms[i as int]);
            assert(rem_pre.subrange(1, rem_pre.len() as int)
                =~= ms.subrange(i as int + 1, ms.len() as int));
        }
        match res {
            Err(e) => {
                proof {
                    let step = spec_execute_statement(ms[i as int], env_pre);
                    assert(output@ =~= old(output)@ + (produced + step.0));
                }
                return Err(e);
            },
            Ok(_) => {
                proof {
                    let step = spec_execute_statement(ms[i as int], env_pre);
                    produced = produced + step.0;
                    assert(output@ =~= old(output)@ + produced);
                    let rem_new = spec_run_statements(
                        ms.subrange(i as int + 1, ms.len() as int), env@);
                    assert((produced.subrange(0, produced.len() - step.0.len() as int)
                        + step.0) + rem_new.0 =~= produced + rem_new.0);
                }
                i = i + 1;
            },
        }
    }
    proof {
        assert(ms.subrange(n as int, ms.len() as int)
            =~= Seq::<StatementModel>::empty());
        assert(produced + Seq::<char>::empty() =~= produced);
    }
    Ok(())
}

/// The expression evaluator.
pub struct Interpreter {}

impl Interpreter {
    /// An interpreter.
    pub fn new() -> (r: Interpreter) {
        Interpreter {}
    }

    /// Evaluate one expression against a fresh global scope; exactly what
    /// `spec_eval` says.
    pub fn interpret(&self, expr: &Expression) -> (r: Result<Value, RuntimeError>)
        requires
            wf_expression(expr@),
        ensures
            (match spec_eval(expr@, initial_env()) {
                Ok((vm, _)) => (match r {
                    Ok(v) => v@ == vm,
                    _ => false,
                }),
                Err(em) => (match r {
                    Err(e) => e@ == em,
                    _ => false,
                }),
            }),
    {
        let mut env = Environment::new();
        proof {
            assert(env@ == initial_env());
        }
        evaluate(expr, &mut env)
    }
}

} // verus!
