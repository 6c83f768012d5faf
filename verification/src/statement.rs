//! Statements: a program is an ordered sequence of statements.
use vstd::prelude::*;

use crate::expression::{Expression, ExpressionModel, expression_model};
use crate::token::{Token, TokenModel};

verus! {

/// A statement: an expression evaluated for its effect, a `print`
/// statement, or a variable declaration with an optional initializer.
#[derive(Debug)]
pub enum Statement {
    ExpressionStatement { expr: Expression },
    Print { expr: Expression },
    Var { name: Token, initializer: Option<Expression> },
}

/// Mathematical model of a `Statement`.
pub enum StatementModel {
    ExpressionStatement { expr: ExpressionModel },
    Print { expr: ExpressionModel },
    Var { name: TokenModel, initializer: Option<ExpressionModel> },
}

/// The model of a statement.
pub open spec fn statement_model(s: &Statement) -> StatementModel {
    match s {
        Statement::ExpressionStatement { expr } =>
            StatementModel::ExpressionStatement { expr: expression_model(expr) },
        Statement::Print { expr } => StatementModel::Print { expr: expression_model(expr) },
        Statement::Var { name, initializer } => StatementModel::Var {
            name: name@,
            initializer: match initializer {
                Some(e) => Some(expression_model(e)),
                None => None,
            },
        },
    }
}

impl View for Statement {
    type V = StatementModel;

    open spec fn view(&self) -> StatementModel {
        statement_model(self)
    }
}

/// The models of a sequence of statements.
pub open spec fn statements_view(ss: Seq<Statement>) -> Seq<StatementModel> {
    ss.map_values(|s: Statement| s@)
}

/// A well-formed statement, as the parser produces it: its expressions are
/// well formed and a declared variable's token carries its name.
pub open spec fn wf_statement(s: StatementModel) -> bool {
    match s {
        StatementModel::ExpressionStatement { expr } => crate::expression::wf_expression(expr),
        StatementModel::Print { expr } => crate::expression::wf_expression(expr),
        StatementModel::Var { name, initializer } => crate::token::is_name_token(name)
            && (match initializer {
                Some(e) => crate::expression::wf_expression(e),
                None => true,
            }),
    }
}

} // verus!
