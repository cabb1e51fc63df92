//! Runtime values and their equality and truthiness.
use vstd::prelude::*;
use crate::number::{float_order, num_compare};

verus! {

/// A runtime value. A number is held as the bit pattern of an IEEE-754 double.
#[derive(Debug, Clone, PartialEq)]
pub enum Value {
    String(String),
    Number(u64),
    Bool(bool),
    Nil,
}

/// What a value is, with its text as a sequence of characters.
pub ghost enum ValueModel {
    String(Seq<char>),
    Number(u64),
    Bool(bool),
    Nil,
}

impl View for Value {
    type V = ValueModel;

    open spec fn view(&self) -> ValueModel {
        match self {
            Value::String(s) => ValueModel::String(s@),
            Value::Number(n) => ValueModel::Number(*n),
            Value::Bool(b) => ValueModel::Bool(*b),
            Value::Nil => ValueModel::Nil,
        }
    }
}

/// Only `nil` and `false` are falsy.
pub open spec fn truthy(v: ValueModel) -> bool {
    !(v is Nil || v == ValueModel::Bool(false))
}

/// Equality of the language: `nil` equals only `nil`, numbers compare as
/// doubles (so NaN equals nothing), other values are equal when they are the
/// same kind with the same content.
pub open spec fn values_equal(a: ValueModel, b: ValueModel) -> bool {
    match (a, b) {
        (ValueModel::Nil, ValueModel::Nil) => true,
        (ValueModel::Number(x), ValueModel::Number(y)) => float_order(x, y)
            == Some(core::cmp::Ordering::Equal),
        (ValueModel::String(x), ValueModel::String(y)) => x == y,
        (ValueModel::Bool(x), ValueModel::Bool(y)) => x == y,
        _ => false,
    }
}

/// Equality does not convert between kinds: `nil` equals `nil`, `nil` equals
/// nothing else, and values of different kinds are never equal.
pub proof fn lemma_equality_without_coercion(a: ValueModel, b: ValueModel)
    ensures
        a is Nil && b is Nil ==> values_equal(a, b),
        (a is Nil) != (b is Nil) ==> !values_equal(a, b),
        (a is String) != (b is String) ==> !values_equal(a, b),
        (a is Number) != (b is Number) ==> !values_equal(a, b),
        (a is Bool) != (b is Bool) ==> !values_equal(a, b),
{
}

impl Value {
    /// A copy of the value.
    pub fn duplicate(&self) -> (r: Value)
        ensures
            r == *self,
    {
        match self {
            Value::String(s) => Value::String(s.clone()),
            Value::Number(n) => Value::Number(*n),
            Value::Bool(b) => Value::Bool(*b),
            Value::Nil => Value::Nil,
        }
    }
}

/// Whether a value counts as true in a condition.
pub fn is_truthy(value: &Value) -> (r: bool)
    ensures
        r == truthy(value@),
{
    match value {
        Value::Nil => false,
        Value::Bool(b) => *b,
        _ => true,
    }
}

/// Whether two values are equal in the language's sense.
pub fn is_equal(first: &Value, second: &Value) -> (r: bool)
    ensures
        r == values_equal(first@, second@),
{
    match (first, second) {
        (Value::Nil, Value::Nil) => true,
        (Value::Number(x), Value::Number(y)) => match num_compare(*x, *y) {
            Some(core::cmp::Ordering::Equal) => true,
            _ => false,
        },
        (Value::String(x), Value::String(y)) => *x == *y,
        (Value::Bool(x), Value::Bool(y)) => *x == *y,
        _ => false,
    }
}

} // verus!
