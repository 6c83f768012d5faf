//! Runtime values of the source language and their semantic rules:
//! display form, truthiness, and type-strict equality.
use vstd::prelude::*;
use vstd::string::StringExecFns;

use crate::number::{num_eq, num_eq_exec, number_display, display_number};
use crate::text::{string_debug, string_debug_exec};

verus! {

/// A runtime value. `Number` holds the bit pattern of an IEEE 754 binary64
/// value (see `crate::number`).
#[derive(Debug, Clone, PartialEq)]
pub enum Value {
    Nil,
    Boolean(bool),
    Number(u64),
    String(String),
}

/// Mathematical model of a `Value`.
pub enum ValueModel {
    Nil,
    Boolean(bool),
    Number(u64),
    Str(Seq<char>),
}

impl View for Value {
    type V = ValueModel;

    open spec fn view(&self) -> ValueModel {
        match self {
            Value::Nil => ValueModel::Nil,
            Value::Boolean(b) => ValueModel::Boolean(*b),
            Value::Number(bits) => ValueModel::Number(*bits),
            Value::String(s) => ValueModel::Str(s@),
        }
    }
}

/// The display form of a value: `nil`, `true`/`false`, the number's
/// shortest decimal form, or the debug-quoted string.
pub open spec fn value_display(v: ValueModel) -> Seq<char> {
    match v {
        ValueModel::Nil => "nil"@,
        ValueModel::Boolean(b) => if b { "true"@ } else { "false"@ },
        ValueModel::Number(bits) => number_display(bits),
        ValueModel::Str(s) => string_debug(s),
    }
}

/// Truthiness: `nil` and `false` are falsy, every other value is truthy.
pub open spec fn value_truthy(v: ValueModel) -> bool {
    match v {
        ValueModel::Nil => false,
        ValueModel::Boolean(b) => b,
        _ => true,
    }
}

/// Type-strict equality: two values are equal only when they are the same
/// variant; numbers compare by IEEE 754 equality, strings by content,
/// booleans by value, and `nil` equals only `nil`.
pub open spec fn values_equal(a: ValueModel, b: ValueModel) -> bool {
    match (a, b) {
        (ValueModel::Nil, ValueModel::Nil) => true,
        (ValueModel::Boolean(x), ValueModel::Boolean(y)) => x == y,
        (ValueModel::Number(x), ValueModel::Number(y)) => num_eq(x, y),
        (ValueModel::Str(x), ValueModel::Str(y)) => x == y,
        _ => false,
    }
}

/// Values of different variants are never equal, and `nil` equals exactly
/// `nil`: equality never coerces one type to another.
pub proof fn lemma_equality_is_type_strict(a: ValueModel, b: ValueModel)
    ensures
        !variants_match(a, b) ==> !values_equal(a, b),
        values_equal(a, ValueModel::Nil) <==> a is Nil,
{
}

/// Whether two value models are the same variant.
pub open spec fn variants_match(a: ValueModel, b: ValueModel) -> bool {
    match (a, b) {
        (ValueModel::Nil, ValueModel::Nil) => true,
        (ValueModel::Boolean(_), ValueModel::Boolean(_)) => true,
        (ValueModel::Number(_), ValueModel::Number(_)) => true,
        (ValueModel::Str(_), ValueModel::Str(_)) => true,
        _ => false,
    }
}

impl Value {
    /// Whether the value is `nil`.
    pub fn is_nil(&self) -> (r: bool)
        ensures
            r == (self@ is Nil),
    {
        match self {
            Value::Nil => true,
            _ => false,
        }
    }

    /// Whether the value is a boolean.
    pub fn is_boolean(&self) -> (r: bool)
        ensures
            r == (self@ is Boolean),
    {
        match self {
            Value::Boolean(_) => true,
            _ => false,
        }
    }

    /// Whether the value is a number.
    pub fn is_number(&self) -> (r: bool)
        ensures
            r == (self@ is Number),
    {
        match self {
            Value::Number(_) => true,
            _ => false,
        }
    }

    /// Whether the value is a string.
    pub fn is_string(&self) -> (r: bool)
        ensures
            r == (self@ is Str),
    {
        match self {
            Value::String(_) => true,
            _ => false,
        }
    }

    /// The boolean a boolean value holds.
    pub fn unwrap_boolean(&self) -> (r: bool)
        requires
            self@ is Boolean,
        ensures
            self@ == ValueModel::Boolean(r),
    {
        match self {
            Value::Boolean(b) => *b,
            _ => false,
        }
    }

    /// The bit pattern a number value holds.
    pub fn unwrap_number(&self) -> (r: u64)
        requires
            self@ is Number,
        ensures
            self@ == ValueModel::Number(r),
    {
        match self {
            Value::Number(bits) => *bits,
            _ => 0,
        }
    }

    /// The text a string value holds.
    pub fn unwrap_string(&self) -> (r: &str)
        requires
            self@ is Str,
        ensures
            self@ == ValueModel::Str(r@),
    {
        match self {
            Value::String(s) => s.as_str(),
            _ => "",
        }
    }

    /// An exact copy; written by hand so that verified callers know the
    /// copy equals the original.
    pub fn duplicate(&self) -> (r: Value)
        ensures
            r@ == self@,
    {
        match self {
            Value::Nil => Value::Nil,
            Value::Boolean(b) => Value::Boolean(*b),
            Value::Number(bits) => Value::Number(*bits),
            Value::String(s) => Value::String(s.clone()),
        }
    }

    /// Render the value for output.
    pub fn display_string(&self) -> (r: String)
        ensures
            r@ == value_display(self@),
    {
        match self {
            Value::Nil => String::from_str("nil"),
            Value::Boolean(b) => {
                if *b {
                    String::from_str("true")
                } else {
                    String::from_str("false")
                }
            },
            Value::Number(bits) => display_number(*bits),
            Value::String(s) => string_debug_exec(s.as_str()),
        }
    }
}

/// Type-strict equality of two values.
pub fn is_equal(left: &Value, right: &Value) -> (r: bool)
    ensures
        r == values_equal(left@, right@),
{
    match left {
        Value::Nil => right.is_nil(),
        Value::Boolean(b) => right.is_boolean() && *b == right.unwrap_boolean(),
        Value::Number(bits) => right.is_number() && num_eq_exec(*bits, right.unwrap_number()),
        Value::String(s) => {
            match right {
                Value::String(o) => crate::text::str_eq(s.as_str(), o.as_str()),
                _ => false,
            }
        },
    }
}

} // verus!
