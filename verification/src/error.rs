//! The ways in which extending the chain can fail.

use vstd::prelude::*;

verus! {

/// Why a block was not appended.
#[derive(Clone, Copy, Debug, PartialEq, Eq, Structural)]
pub enum ChainError {
    /// The proposed block does not link to the newest block: it names
    /// another digest, or its proof does not solve the puzzle.
    ChainInvariantViolation,
    /// No proof up to `u64::MAX` solves the puzzle of the newest block.
    ProofSpaceExhausted,
    /// The chain already holds `u32::MAX` blocks, so the next index does not
    /// fit the index type.
    IndexOverflow,
}

impl ChainError {
    /// A short description of the error.
    pub fn message(&self) -> (text: String)
        ensures
            text@ == match *self {
                ChainError::ChainInvariantViolation => "block does not link to the chain"@,
                ChainError::ProofSpaceExhausted => "no proof solves the puzzle"@,
                ChainError::IndexOverflow => "block index out of range"@,
            },
    {
        match self {
            ChainError::ChainInvariantViolation => "block does not link to the chain".to_owned(),
            ChainError::ProofSpaceExhausted => "no proof solves the puzzle".to_owned(),
            ChainError::IndexOverflow => "block index out of range".to_owned(),
        }
    }
}

} // verus!
