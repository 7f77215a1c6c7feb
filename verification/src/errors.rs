//! Structured error values shared by the phases of the pipeline. The core
//! reports errors as data; turning them into text for an end user is the
//! host's business.
use crate::LocationInfo;
use vstd::prelude::*;

verus! {

/// An exception or unrecoverable state reached by the host driver.
#[derive(Debug, Clone)]
pub struct RunnerError {
    pub msg: String,
}

/// What went wrong while scanning.
#[derive(Debug, Clone, Copy, PartialEq, Eq, Structural)]
pub enum ScanErrorKind {
    /// A character that starts no token.
    UnexpectedCharacter(char),
    /// The input ended inside a string literal.
    UnterminatedString,
}

/// Scanner error, pinned to the source location where it arose.
#[derive(Debug, Clone, Copy, PartialEq, Eq, Structural)]
pub struct ScannerError {
    pub cause: ScanErrorKind,
    pub location: LocationInfo,
}

/// What went wrong while parsing.
#[derive(Debug, Clone, Copy, PartialEq, Eq, Structural)]
pub enum ParseErrorKind {
    ExpectVariableName,
    ExpectSemicolonAfterDeclaration,
    ExpectSemicolonAfterBreak,
    ExpectSemicolonAfterLoopCondition,
    ExpectSemicolonAfterExpression,
    ExpectLeftParenAfterFor,
    ExpectRightParenAfterForClauses,
    ExpectLeftParenAfterWhile,
    ExpectRightParenAfterWhile,
    ExpectLeftParenAfterIf,
    ExpectRightParenAfterIf,
    ExpectRightBraceAfterBlock,
    ExpectRightParenAfterExpression,
    BreakOutsideLoop,
    InvalidAssignmentTarget,
    ExpectExpression,
}

/// Parser error, pinned to the offending token's location.
#[derive(Debug, Clone, Copy, PartialEq, Eq, Structural)]
pub struct ParserError {
    pub cause: ParseErrorKind,
    pub location: LocationInfo,
}

/// What went wrong while evaluating.
#[derive(Debug, Clone, PartialEq)]
pub enum RuntimeErrorKind {
    /// A name that no scope binds.
    UndefinedVariable(Vec<char>),
    /// Unary minus applied to a value that is not a number.
    UnaryMinusOnNonNumber,
    /// A unary operator token that is neither `!` nor `-`.
    UnexpectedUnaryOperator(crate::token_type::TokenType),
    /// A binary operator token outside the arithmetic and comparison set.
    UnexpectedBinaryOperator(crate::token_type::TokenType),
    /// Operand kinds that the binary operator does not accept.
    InvalidExpression,
    /// The evaluator's loop budget ran out; a machine limit, not part of the
    /// language.
    LoopLimitReached,
}

/// Runtime error raised by the evaluator, pinned to the operator or
/// identifier it arose at.
#[derive(Debug, Clone, PartialEq)]
pub struct RuntimeError {
    pub cause: RuntimeErrorKind,
    pub location: LocationInfo,
}

} // verus!
