use vstd::prelude::*;

pub mod environment;
pub mod expression;
pub mod errors;
pub mod interpreter;
pub mod num;
pub mod parser;
pub mod runner;
pub mod scanner;
pub mod statement;
pub mod token;
pub mod token_type;

verus! {

/// Position of a token in the source text: 1-based line and column of its
/// first character, and its length in characters.
#[derive(Debug, Clone, Copy, PartialEq, Eq, Structural)]
pub struct LocationInfo {
    pub column: usize,
    pub line: usize,
    pub len: usize,
}

} // verus!
