//! The syntax tree: expressions and statements.
use vstd::prelude::*;
use crate::token::Token;
use crate::value::Value;

verus! {

/// An expression; each node owns its children.
#[derive(Debug, PartialEq)]
pub enum Expression {
    /// The name assigned to, and the value.
    Assign(Token, Box<Expression>),
    /// Left operand, operator, right operand.
    Binary(Box<Expression>, Token, Box<Expression>),
    Grouping(Box<Expression>),
    /// Left operand, `and` or `or`, right operand.
    Logical(Box<Expression>, Token, Box<Expression>),
    /// Operator and operand.
    Unary(Token, Box<Expression>),
    Literal(Value),
    Variable(Token),
}

/// A statement.
#[derive(Debug, PartialEq)]
pub enum Statement {
    Block(Vec<Statement>),
    Expression(Expression),
    /// Condition, then branch, optional else branch.
    If(Expression, Box<Statement>, Option<Box<Statement>>),
    Print(Expression),
    /// Name and optional initializer.
    Var(Token, Option<Expression>),
    /// Condition and body.
    While(Expression, Box<Statement>),
}

} // verus!
