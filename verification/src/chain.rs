//! Validity of a chain of blocks.

use crate::block::{block_digest, blocks_view, Block, BlockView};
use crate::blockchain::Blockchain;
use crate::digest::is_hex_digest;
use crate::pow::pow_valid;
use vstd::prelude::*;

verus! {

/// Whether `current` may directly follow `previous`: it names the digest of
/// `previous`, and its proof solves the puzzle of the proof of `previous`.
/// Nothing may follow a block that has no digest.
pub open spec fn linked(previous: BlockView, current: BlockView) -> bool {
    &&& block_digest(previous) == Some(current.previous_hash)
    &&& pow_valid(previous.proof, current.proof)
}

/// Whether the block at position `i` may follow the one before it.
pub open spec fn linked_at(chain: Seq<BlockView>, i: int) -> bool {
    linked(chain[i - 1], chain[i])
}

/// Whether every block but the first may follow the one before it. The
/// first block is not examined, so chains of no or one block are valid.
pub open spec fn chain_valid(chain: Seq<BlockView>) -> bool {
    forall|i: int| 0 < i < chain.len() ==> #[trigger] linked_at(chain, i)
}

/// A valid chain stays valid when a block that may follow its last block is
/// appended.
pub proof fn lemma_push_keeps_valid(chain: Seq<BlockView>, block: BlockView)
    requires
        chain_valid(chain),
        chain.len() > 0 ==> linked(chain.last(), block),
    ensures
        chain_valid(chain.push(block)),
{
    let longer = chain.push(block);
    assert forall|i: int| 0 < i < longer.len() implies #[trigger] linked_at(longer, i) by {
        if i < chain.len() {
            assert(linked_at(chain, i));
        }
    }
}

/// Putting `block` in the place of the block at position `i` of a valid
/// chain leaves a valid chain exactly when `block` may follow the block
/// before that position and the block after it may follow `block`.
pub proof fn lemma_replaced_block(chain: Seq<BlockView>, i: int, block: BlockView)
    requires
        chain_valid(chain),
        0 <= i < chain.len(),
    ensures
        chain_valid(chain.update(i, block)) <==> {
            &&& i > 0 ==> linked(chain[i - 1], block)
            &&& i + 1 < chain.len() ==> linked(block, chain[i + 1])
        },
{
    let changed = chain.update(i, block);
    if chain_valid(changed) {
        if i > 0 {
            assert(linked_at(changed, i));
        }
        if i + 1 < chain.len() {
            assert(linked_at(changed, i + 1));
        }
    }
    if (i > 0 ==> linked(chain[i - 1], block)) && (i + 1 < chain.len() ==> linked(
        block,
        chain[i + 1],
    )) {
        assert forall|k: int| 0 < k < changed.len() implies #[trigger] linked_at(changed, k) by {
            assert(linked_at(chain, k));
        }
    }
}

/// A valid chain of two or more blocks is no longer valid once the
/// `previous_hash` of one of its blocks is changed. For the first block,
/// whose own `previous_hash` no link examines, this rests on its digest
/// changing with it: a changed first block that keeps the digest of the old
/// one is the one case left out.
pub proof fn lemma_changed_previous_hash(chain: Seq<BlockView>, i: int, previous_hash: Seq<char>)
    requires
        chain_valid(chain),
        chain.len() >= 2,
        0 <= i < chain.len(),
        previous_hash != chain[i].previous_hash,
        i == 0 ==> block_digest(BlockView { previous_hash, ..chain[0] }) != block_digest(chain[0]),
    ensures
        !chain_valid(chain.update(i, BlockView { previous_hash, ..chain[i] })),
{
    let block = BlockView { previous_hash, ..chain[i] };
    lemma_replaced_block(chain, i, block);
    if i > 0 {
        assert(linked_at(chain, i));
    } else {
        assert(linked_at(chain, 1));
    }
}

/// A valid chain of two or more blocks is no longer valid once the `proof`
/// of one of its blocks is changed, provided that the change shows at one of
/// the two links of that block: the new proof does not solve the puzzle of
/// the block before, or the block after no longer names the block's digest,
/// or its proof does not solve the new puzzle. Left out are the changes that
/// show at neither link, such as another solution of the same puzzle in the
/// newest block.
pub proof fn lemma_changed_proof(chain: Seq<BlockView>, i: int, changed_proof: u64)
    requires
        chain_valid(chain),
        chain.len() >= 2,
        0 <= i < chain.len(),
        changed_proof != chain[i].proof,
        ({
            ||| i > 0 && !pow_valid(chain[i - 1].proof, changed_proof)
            ||| i + 1 < chain.len() && block_digest(BlockView { proof: changed_proof, ..chain[i] })
                != block_digest(chain[i])
            ||| i + 1 < chain.len() && !pow_valid(changed_proof, chain[i + 1].proof)
        }),
    ensures
        !chain_valid(chain.update(i, BlockView { proof: changed_proof, ..chain[i] })),
{
    let block = BlockView { proof: changed_proof, ..chain[i] };
    lemma_replaced_block(chain, i, block);
    if i + 1 < chain.len() {
        assert(linked_at(chain, i + 1));
    }
}

impl Blockchain {
    /// Whether `chain` is valid. In a chain found valid, every block but the
    /// first names a digest of 64 lowercase hexadecimal digits: a block that
    /// names anything else does not link.
    pub fn valid_chain(chain: &Vec<Block>) -> (ok: bool)
        ensures
            ok == chain_valid(blocks_view(chain@)),
            ok ==> forall|i: int|
                0 < i < chain@.len() ==> is_hex_digest(#[trigger] chain@[i].previous_hash@),
    {
        let ghost views = blocks_view(chain@);
        let mut current_index: usize = 1;
        while current_index < chain.len()
            invariant
                1 <= current_index,
                views == blocks_view(chain@),
                forall|i: int|
                    0 < i < current_index && i < chain.len() ==> #[trigger] linked_at(views, i),
                forall|i: int|
                    0 < i < current_index && i < chain.len() ==> is_hex_digest(
                        #[trigger] chain@[i].previous_hash@,
                    ),
            decreases chain.len() - current_index,
        {
            let last_block = &chain[current_index - 1];
            let block = &chain[current_index];
            match Blockchain::hash_block(last_block) {
                Some(expected) => {
                    if block.previous_hash != expected {
                        assert(!linked_at(views, current_index as int));
                        return false;
                    }
                },
                None => {
                    assert(!linked_at(views, current_index as int));
                    return false;
                },
            }
            if !Blockchain::valid_proof(last_block.proof, block.proof) {
                assert(!linked_at(views, current_index as int));
                return false;
            }
            assert(linked_at(views, current_index as int));
            current_index += 1;
        }
        true
    }

    /// Whether `new_chain` is valid and holds more than `max_length` blocks.
    pub fn new_consensus(max_length: usize, new_chain: &Vec<Block>) -> (better: bool)
        ensures
            better == (new_chain@.len() > max_length && chain_valid(blocks_view(new_chain@))),
            better ==> forall|i: int|
                0 < i < new_chain@.len() ==> is_hex_digest(#[trigger] new_chain@[i].previous_hash@),
    {
        new_chain.len() > max_length && Blockchain::valid_chain(new_chain)
    }
}

} // verus!
