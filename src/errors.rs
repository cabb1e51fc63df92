//! The errors of each stage.
use vstd::prelude::*;

verus! {

/// Errors about command line arguments.
#[derive(Debug, Clone, Copy, PartialEq, Eq, Structural)]
pub enum ArgumentError {
    InvalidArgs,
    ArgAccessError,
}

/// Errors found while scanning; each carries the line it was found on.
#[derive(Debug, Clone, Copy, PartialEq, Eq, Structural)]
pub enum ScanError {
    /// At least one error occurred while scanning.
    HadError,
    CharacterAccessError(u32),
    /// The unexpected character and its line.
    UnexpectedCharacter(char, u32),
    /// The line where the unterminated string ends.
    UnterminatedString(u32),
    /// A numeral that does not denote a number.
    InvalidNumber(u32),
}

/// Errors found while parsing; each carries the line it was found on.
#[derive(Debug, Clone, Copy, PartialEq, Eq, Structural)]
pub enum ParseError {
    /// At least one error occurred while parsing.
    HadError,
    /// A token index outside the token sequence.
    TokenAccessError(usize),
    UnterminatedGrouping(u32),
    UnterminatedPrintStatement(u32),
    UnterminatedExpressionStatement(u32),
    UnterminatedVarDeclaration(u32),
    UnterminatedBlock(u32),
    ExpectedIdentifier(u32),
    ExprectedLeftParen(u32),
    ExpectedRightParen(u32),
    ExpectedExpression(u32),
    ExpectedSemicolon(u32),
    NoLiteralOnToken(u32),
    InvalidAssignmentTarget,
}

/// Errors during execution; each aborts the run.
#[derive(Debug, Clone, Copy, PartialEq, Eq, Structural)]
pub enum RuntimeError {
    /// An operand that must be a number is not.
    NumberOperand,
    /// `+` on operands that are not two numbers or two strings.
    IncompatibleTypes,
    /// A read or assignment of a name that no scope defines.
    UndefinedVariable,
    /// An operator that the evaluator does not know.
    Unknown,
    /// A loop ran past the iteration budget it was given.
    LoopLimit,
}

} // verus!
