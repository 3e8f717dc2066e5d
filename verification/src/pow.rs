//! The proof-of-work puzzle: which proofs are accepted, and the search for
//! the first one.

use crate::blockchain::Blockchain;
use crate::digest::{has_leading_zeros, meets_target, sha256_hex, sha256_hex_of};
use crate::encoding::{decimal, lemma_decimal_length_u64, push_decimal};
use crate::error::ChainError;
use vstd::prelude::*;

verus! {

/// The text that is hashed for a candidate: the decimal digits of the
/// previous proof, directly followed by those of the candidate.
pub open spec fn proof_text(last_proof: u64, proof: u64) -> Seq<u8> {
    decimal(last_proof as nat) + decimal(proof as nat)
}

/// Whether `proof` solves the puzzle that `last_proof` poses.
pub open spec fn pow_valid(last_proof: u64, proof: u64) -> bool {
    meets_target(sha256_hex(proof_text(last_proof, proof)))
}

/// Whether `proof` is the smallest solution of the puzzle of `last_proof`.
pub open spec fn is_first_proof(last_proof: u64, proof: u64) -> bool {
    &&& pow_valid(last_proof, proof)
    &&& forall|q: u64| q < proof ==> !pow_valid(last_proof, q)
}

/// Whether the puzzle of `last_proof` has a solution at all.
pub open spec fn has_proof(last_proof: u64) -> bool {
    exists|p: u64| pow_valid(last_proof, p)
}

/// The smallest solution of the puzzle of `last_proof`, where it has one.
pub open spec fn first_proof(last_proof: u64) -> u64 {
    choose|p: u64| is_first_proof(last_proof, p)
}

/// A puzzle has at most one smallest solution.
pub proof fn lemma_first_proof_unique(last_proof: u64, p: u64)
    requires
        is_first_proof(last_proof, p),
    ensures
        first_proof(last_proof) == p,
        has_proof(last_proof),
{
    let chosen = first_proof(last_proof);
    assert(is_first_proof(last_proof, chosen));
    if chosen < p {
        assert(!pow_valid(last_proof, chosen));
    }
    if p < chosen {
        assert(!pow_valid(last_proof, p));
    }
}

/// Below every solution of a puzzle lies its smallest solution.
proof fn lemma_smallest_below(last_proof: u64, p: u64)
    requires
        pow_valid(last_proof, p),
    ensures
        exists|q: u64| is_first_proof(last_proof, q),
    decreases p,
{
    if exists|q: u64| q < p && pow_valid(last_proof, q) {
        let q = choose|q: u64| q < p && pow_valid(last_proof, q);
        lemma_smallest_below(last_proof, q);
    } else {
        assert(is_first_proof(last_proof, p));
    }
}

/// Where a puzzle has a solution, `first_proof` is its smallest one.
pub proof fn lemma_first_proof_solves(last_proof: u64)
    requires
        has_proof(last_proof),
    ensures
        is_first_proof(last_proof, first_proof(last_proof)),
{
    let p = choose|p: u64| pow_valid(last_proof, p);
    lemma_smallest_below(last_proof, p);
}

/// Scans the candidates `start`, `start + 1`, ... in order and returns the
/// first that solves the puzzle of `last_proof`. The scan ends at `u64::MAX`:
/// where no candidate up to there solves the puzzle, the proof space is
/// exhausted, and the scan does not wrap around to smaller candidates.
pub fn search_proof(last_proof: u64, start: u64) -> (found: Result<u64, ChainError>)
    ensures
        match found {
            Ok(p) => {
                &&& start <= p
                &&& pow_valid(last_proof, p)
                &&& forall|q: u64| start <= q < p ==> !pow_valid(last_proof, q)
            },
            Err(error) => {
                &&& error == ChainError::ProofSpaceExhausted
                &&& forall|q: u64| start <= q ==> !pow_valid(last_proof, q)
            },
        },
{
    let mut candidate: u64 = start;
    loop
        invariant
            start <= candidate,
            forall|q: u64| start <= q < candidate ==> !pow_valid(last_proof, q),
        decreases u64::MAX - candidate,
    {
        if Blockchain::valid_proof(last_proof, candidate) {
            return Ok(candidate);
        }
        if candidate == u64::MAX {
            return Err(ChainError::ProofSpaceExhausted);
        }
        candidate += 1;
    }
}

impl Blockchain {
    /// Whether `proof` solves the puzzle that `last_proof` poses: the SHA-256
    /// of the two numbers' decimal digits, written one after the other, must
    /// start with four zero digits.
    pub fn valid_proof(last_proof: u64, proof: u64) -> (ok: bool)
        ensures
            ok == pow_valid(last_proof, proof),
    {
        let mut guess: Vec<u8> = Vec::new();
        push_decimal(&mut guess, last_proof);
        push_decimal(&mut guess, proof);
        proof {
            lemma_decimal_length_u64(last_proof);
            lemma_decimal_length_u64(proof);
        }
        let hex = sha256_hex_of(&guess);
        has_leading_zeros(hex.as_str())
    }
}

} // verus!
