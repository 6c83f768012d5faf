//! Front end and evaluator for a small dynamically-typed scripting language:
//! source text is scanned into tokens, parsed into an abstract syntax tree,
//! and evaluated into values and printed output.
use vstd::prelude::*;

pub mod error;
pub mod interpreter;
pub mod lox;
pub mod expression;
pub mod environment;
pub mod number;
pub mod parser;
pub mod scanner;
pub mod statement;
pub mod text;
pub mod token;
pub mod value;

verus! {

} // verus!
