//! The expression tree produced by the parser, and its two textual forms:
//! the display form (operators shown by their token kind) and the pretty
//! printer (operators shown by their exact lexemes).
use vstd::prelude::*;
use vstd::string::StringExecFns;

use crate::token::{Literal, LiteralModel, Token, TokenModel, literal_text, token_type_text};

verus! {

/// An expression: a tree owned outright by its parent, with no sharing and
/// no cycles.
#[derive(Debug)]
pub enum Expression {
    Binary { left: Box<Expression>, operator: Token, right: Box<Expression> },
    Grouping { expr: Box<Expression> },
    Literal { value: Literal },
    Unary { operator: Token, right: Box<Expression> },
    Variable { name: Token },
    Assign { name: Token, value: Box<Expression> },
}

/// Mathematical model of an `Expression`.
pub enum ExpressionModel {
    Binary { left: Box<ExpressionModel>, operator: TokenModel, right: Box<ExpressionModel> },
    Grouping { expr: Box<ExpressionModel> },
    Literal { value: LiteralModel },
    Unary { operator: TokenModel, right: Box<ExpressionModel> },
    Variable { name: TokenModel },
    Assign { name: TokenModel, value: Box<ExpressionModel> },
}

/// The model of an expression tree.
pub open spec fn expression_model(e: &Expression) -> ExpressionModel
    decreases e,
{
    match e {
        Expression::Binary { left, operator, right } => ExpressionModel::Binary {
            left: Box::new(expression_model(left)),
            operator: operator@,
            right: Box::new(expression_model(right)),
        },
        Expression::Grouping { expr } => ExpressionModel::Grouping {
            expr: Box::new(expression_model(expr)),
        },
        Expression::Literal { value } => ExpressionModel::Literal { value: value@ },
        Expression::Unary { operator, right } => ExpressionModel::Unary {
            operator: operator@,
            right: Box::new(expression_model(right)),
        },
        Expression::Variable { name } => ExpressionModel::Variable { name: name@ },
        Expression::Assign { name, value } => ExpressionModel::Assign {
            name: name@,
            value: Box::new(expression_model(value)),
        },
    }
}

impl View for Expression {
    type V = ExpressionModel;

    open spec fn view(&self) -> ExpressionModel {
        expression_model(self)
    }
}

/// Whether the token kind is a binary operator the evaluator understands.
pub open spec fn is_binary_operator(t: crate::token::TokenType) -> bool {
    ||| t == crate::token::TokenType::Plus
    ||| t == crate::token::TokenType::Minus
    ||| t == crate::token::TokenType::Star
    ||| t == crate::token::TokenType::Slash
    ||| t == crate::token::TokenType::Greater
    ||| t == crate::token::TokenType::GreaterEqual
    ||| t == crate::token::TokenType::Less
    ||| t == crate::token::TokenType::LessEqual
    ||| t == crate::token::TokenType::EqualEqual
    ||| t == crate::token::TokenType::BangEqual
}

/// A well-formed expression, as the parser produces it: literal nodes never
/// hold a raw identifier literal, unary operators are `!` or `-`, binary
/// operators are among the ten the grammar has, and variable references and
/// assignment targets carry their name.
pub open spec fn wf_expression(e: ExpressionModel) -> bool
    decreases e,
{
    match e {
        ExpressionModel::Binary { left, operator, right } =>
            is_binary_operator(operator.t) && wf_expression(*left) && wf_expression(*right),
        ExpressionModel::Grouping { expr } => wf_expression(*expr),
        ExpressionModel::Literal { value } => !(value is Identifier),
        ExpressionModel::Unary { operator, right } =>
            (operator.t == crate::token::TokenType::Bang
                || operator.t == crate::token::TokenType::Minus) && wf_expression(*right),
        ExpressionModel::Variable { name } => crate::token::is_name_token(name),
        ExpressionModel::Assign { name, value } =>
            crate::token::is_name_token(name) && wf_expression(*value),
    }
}

/// The display text of an expression: fully parenthesized prefix notation
/// with each operator shown by its token kind's display text.
pub open spec fn expression_text(e: ExpressionModel) -> Seq<char>
    decreases e,
{
    match e {
        ExpressionModel::Binary { left, operator, right } =>
            "("@ + token_type_text(operator.t) + " "@ + expression_text(*left) + " "@
                + expression_text(*right) + ")"@,
        ExpressionModel::Grouping { expr } => "(group "@ + expression_text(*expr) + ")"@,
        ExpressionModel::Literal { value } => literal_text(value),
        ExpressionModel::Unary { operator, right } =>
            "("@ + token_type_text(operator.t) + " "@ + expression_text(*right) + ")"@,
        ExpressionModel::Variable { name } => "(var "@ + name.lexeme + ")"@,
        ExpressionModel::Assign { name, value } =>
            "(assign "@ + name.lexeme + " "@ + expression_text(*value) + ")"@,
    }
}

/// The pretty-printed text of an expression: the same parenthesized prefix
/// notation, with each operator shown by its exact source lexeme.
pub open spec fn pretty_text(e: ExpressionModel) -> Seq<char>
    decreases e,
{
    match e {
        ExpressionModel::Binary { left, operator, right } =>
            "("@ + operator.lexeme + " "@ + pretty_text(*left) + " "@ + pretty_text(*right)
                + ")"@,
        ExpressionModel::Grouping { expr } => "(group "@ + pretty_text(*expr) + ")"@,
        ExpressionModel::Literal { value } => literal_text(value),
        ExpressionModel::Unary { operator, right } =>
            "("@ + operator.lexeme + " "@ + pretty_text(*right) + ")"@,
        ExpressionModel::Variable { name } => "(var "@ + name.lexeme + ")"@,
        ExpressionModel::Assign { name, value } =>
            "(assign "@ + name.lexeme + " "@ + pretty_text(*value) + ")"@,
    }
}

impl Expression {
    /// Render the display text of the expression.
    pub fn display_string(&self) -> (r: String)
        ensures
            r@ == expression_text(self@),
        decreases self,
    {
        match self {
            Expression::Binary { left, operator, right } => {
                let mut out = String::from_str("(");
                let op = operator.t.display_string();
                out.append(op.as_str());
                out.append(" ");
                let l = left.display_string();
                out.append(l.as_str());
                out.append(" ");
                let rt = right.display_string();
                out.append(rt.as_str());
                out.append(")");
                out
            },
            Expression::Grouping { expr } => {
                let mut out = String::from_str("(group ");
                let inner = expr.display_string();
                out.append(inner.as_str());
                out.append(")");
                out
            },
            Expression::Literal { value } => value.display_string(),
            Expression::Unary { operator, right } => {
                let mut out = String::from_str("(");
                let op = operator.t.display_string();
                out.append(op.as_str());
                out.append(" ");
                let rt = right.display_string();
                out.append(rt.as_str());
                out.append(")");
                out
            },
            Expression::Variable { name } => {
                let mut out = String::from_str("(var ");
                out.append(name.lexeme.as_str());
                out.append(")");
                out
            },
            Expression::Assign { name, value } => {
                let mut out = String::from_str("(assign ");
                out.append(name.lexeme.as_str());
                out.append(" ");
                let v = value.display_string();
                out.append(v.as_str());
                out.append(")");
                out
            },
        }
    }
}

/// Pretty-print an expression: deterministic, fully parenthesized prefix
/// notation over the operators' exact lexemes.
pub fn pretty_print(expr: &Expression) -> (r: String)
    ensures
        r@ == pretty_text(expr@),
    decreases expr,
{
    match expr {
        Expression::Binary { left, operator, right } => {
            let mut out = String::from_str("(");
            out.append(operator.lexeme.as_str());
            out.append(" ");
            let l = pretty_print(left);
            out.append(l.as_str());
            out.append(" ");
            let rt = pretty_print(right);
            out.append(rt.as_str());
            out.append(")");
            out
        },
        Expression::Grouping { expr } => {
            let mut out = String::from_str("(group ");
            let inner = pretty_print(expr);
            out.append(inner.as_str());
            out.append(")");
            out
        },
        Expression::Literal { value } => value.display_string(),
        Expression::Unary { operator, right } => {
            let mut out = String::from_str("(");
            out.append(operator.lexeme.as_str());
            out.append(" ");
            let rt = pretty_print(right);
            out.append(rt.as_str());
            out.append(")");
            out
        },
        Expression::Variable { name } => {
            let mut out = String::from_str("(var ");
            out.append(name.lexeme.as_str());
            out.append(")");
            out
        },
        Expression::Assign { name, value } => {
            let mut out = String::from_str("(assign ");
            out.append(name.lexeme.as_str());
            out.append(" ");
            let v = pretty_print(value);
            out.append(v.as_str());
            out.append(")");
            out
        },
    }
}

/// Pretty-printing is deterministic: trees with equal models render to
/// equal text, so the printed form of a fixed tree never varies.
pub proof fn lemma_pretty_print_deterministic(a: ExpressionModel, b: ExpressionModel)
    requires
        a == b,
    ensures
        pretty_text(a) == pretty_text(b),
{
}

} // verus!
