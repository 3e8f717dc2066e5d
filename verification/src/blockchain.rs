//! The ledger: an append-only chain of blocks, the pool of pending
//! transactions, and the addresses of the known peers.

use crate::block::{
    block_digest, blocks_view, transactions_view, Block, BlockView, Timestamp, Transaction,
    TransactionView,
};
use crate::chain::{chain_valid, lemma_push_keeps_valid, linked};
use crate::digest::is_hex_digest;
use crate::error::ChainError;
use crate::identity::{simple_text, NodeId};
use crate::pow::{
    first_proof, has_proof, is_first_proof, lemma_first_proof_solves, lemma_first_proof_unique,
    pow_valid, search_proof,
};
use vstd::prelude::*;

verus! {

/// The ledger of one node.
#[derive(Debug, PartialEq, Eq)]
pub struct Blockchain {
    pub(crate) chain: Vec<Block>,
    pub(crate) nodes: Vec<String>,
    pub(crate) current_transactions: Vec<Transaction>,
}

/// What a ledger holds, as plain mathematical values.
pub struct LedgerView {
    /// The blocks, oldest first.
    pub chain: Seq<BlockView>,
    /// The transactions waiting for the next block, oldest first.
    pub pending: Seq<TransactionView>,
    /// The peer addresses, in the order in which they were first registered.
    pub nodes: Seq<Seq<char>>,
}

/// The proof that the first block carries.
pub const GENESIS_PROOF: u64 = 100;

/// The first block of every chain, created at `timestamp`: index 1, no
/// transactions, the fixed proof, and `"1"` in place of a previous digest.
pub open spec fn genesis(timestamp: Timestamp) -> BlockView {
    BlockView {
        index: 1,
        timestamp,
        transactions: Seq::empty(),
        proof: GENESIS_PROOF,
        previous_hash: "1"@,
    }
}

/// The transaction that pays the miner `miner` for a block: one unit from
/// the sender `"0"`, which stands for the system, to the miner's identifier
/// in simple form.
pub open spec fn reward(miner: u128) -> TransactionView {
    TransactionView { sender: "0"@, recipient: simple_text(miner), amount: 1 }
}

impl LedgerView {
    /// The invariant of a ledger: the chain is never empty, every block
    /// links to the one before it, and no peer address is held twice.
    pub open spec fn wf(self) -> bool {
        &&& self.chain.len() >= 1
        &&& chain_valid(self.chain)
        &&& self.nodes.no_duplicates()
    }

    /// A fresh ledger: the genesis block alone, nothing pending, no peers.
    pub open spec fn fresh(timestamp: Timestamp) -> LedgerView {
        LedgerView { chain: seq![genesis(timestamp)], pending: Seq::empty(), nodes: Seq::empty() }
    }

    /// The newest block.
    pub open spec fn last(self) -> BlockView {
        self.chain.last()
    }

    /// The ledger after `t` joined the pending pool.
    pub open spec fn with_transaction(self, t: TransactionView) -> LedgerView {
        LedgerView { pending: self.pending.push(t), ..self }
    }

    /// Whether the chain can take one more block: the next index must fit
    /// the index type.
    pub open spec fn has_room(self) -> bool {
        self.chain.len() < u32::MAX
    }

    /// Whether a block with this digest and proof may follow the newest
    /// block.
    pub open spec fn accepts(self, previous_hash: Seq<char>, proof: u64) -> bool {
        &&& block_digest(self.last()) == Some(previous_hash)
        &&& pow_valid(self.last().proof, proof)
    }

    /// Why a block with this digest and proof is refused, where it is: a
    /// block that does not link is a violation of the chain invariant, and
    /// one that links but finds no room an overflow of the index.
    pub open spec fn append_error(self, previous_hash: Seq<char>, proof: u64) -> ChainError {
        if !self.accepts(previous_hash, proof) {
            ChainError::ChainInvariantViolation
        } else {
            ChainError::IndexOverflow
        }
    }

    /// The block that would be appended now: it takes the next index and
    /// the whole pending pool.
    pub open spec fn next_block(
        self,
        previous_hash: Seq<char>,
        proof: u64,
        timestamp: Timestamp,
    ) -> BlockView {
        BlockView {
            index: (self.chain.len() + 1) as u32,
            timestamp,
            transactions: self.pending,
            proof,
            previous_hash,
        }
    }

    /// The ledger after `block` was appended: the pending pool is empty.
    pub open spec fn with_block(self, block: BlockView) -> LedgerView {
        LedgerView { chain: self.chain.push(block), pending: Seq::empty(), nodes: self.nodes }
    }

    /// Whether mining can succeed: there is room for a block, the newest
    /// block has a digest for the next one to name, and its puzzle has a
    /// solution.
    pub open spec fn can_mine(self) -> bool {
        &&& self.has_room()
        &&& block_digest(self.last()) is Some
        &&& has_proof(self.last().proof)
    }

    /// Why mining fails, where it does: without room the index overflows;
    /// after a block without a digest no block can keep the chain valid; and
    /// else the puzzle has no solution.
    pub open spec fn mine_error(self) -> ChainError {
        if !self.has_room() {
            ChainError::IndexOverflow
        } else if block_digest(self.last()) is None {
            ChainError::ChainInvariantViolation
        } else {
            ChainError::ProofSpaceExhausted
        }
    }

    /// The block that mining by `miner` at `timestamp` appends: it carries
    /// the pending transactions followed by the reward, the smallest proof
    /// that solves the puzzle, and the digest of the newest block.
    pub open spec fn mined_block(self, miner: u128, timestamp: Timestamp) -> BlockView {
        self.with_transaction(reward(miner)).next_block(
            block_digest(self.last()).unwrap(),
            first_proof(self.last().proof),
            timestamp,
        )
    }

    /// The ledger after `miner` mined a block at `timestamp`.
    pub open spec fn mined(self, miner: u128, timestamp: Timestamp) -> LedgerView {
        self.with_block(self.mined_block(miner, timestamp))
    }

    /// The ledger after the addresses were registered one after the other.
    pub open spec fn with_nodes(self, addresses: Seq<Seq<char>>) -> LedgerView
        decreases addresses.len(),
    {
        if addresses.len() == 0 {
            self
        } else {
            self.with_nodes(addresses.drop_last()).with_node(addresses.last())
        }
    }

    /// The ledger after `address` was registered: it joins the end of the
    /// list unless the list holds it already.
    pub open spec fn with_node(self, address: Seq<char>) -> LedgerView {
        if self.nodes.contains(address) {
            self
        } else {
            LedgerView { nodes: self.nodes.push(address), ..self }
        }
    }
}

/// Mining keeps the ledger invariant: the mined block links to the block
/// before it, so the longer chain is valid again.
pub proof fn lemma_mined_keeps_invariant(ledger: LedgerView, miner: u128, timestamp: Timestamp)
    requires
        ledger.wf(),
        ledger.can_mine(),
    ensures
        ledger.mined(miner, timestamp).wf(),
        linked(ledger.last(), ledger.mined(miner, timestamp).last()),
        ledger.mined(miner, timestamp).chain.len() == ledger.chain.len() + 1,
{
    lemma_first_proof_solves(ledger.last().proof);
    lemma_push_keeps_valid(ledger.chain, ledger.mined_block(miner, timestamp));
}

/// Adding a transaction and then mining leaves nothing pending, and the new
/// newest block holds what was pending before, then the added transaction,
/// then the reward of the miner, and nothing after it. That block carries
/// the index that was returned for the transaction: one more than the
/// number of blocks before.
pub proof fn lemma_transaction_then_mine(
    ledger: LedgerView,
    t: TransactionView,
    miner: u128,
    timestamp: Timestamp,
)
    ensures
        ({
            let after = ledger.with_transaction(t).mined(miner, timestamp);
            &&& after.pending.len() == 0
            &&& after.chain.len() == ledger.chain.len() + 1
            &&& after.chain.drop_last() == ledger.chain
            &&& after.last().transactions == ledger.pending.push(t).push(reward(miner))
            &&& after.last().transactions.len() == ledger.pending.len() + 2
            &&& ledger.has_room() ==> after.last().index == ledger.chain.len() + 1
        }),
{
    let after = ledger.with_transaction(t).mined(miner, timestamp);
    assert(after.chain.drop_last() =~= ledger.chain);
}

/// Mining twice in a row extends a ledger by two blocks, and the whole
/// resulting chain is valid: the first new block links to the old newest
/// block, and the second to the first.
pub proof fn lemma_mine_twice(
    ledger: LedgerView,
    first_miner: u128,
    first_time: Timestamp,
    second_miner: u128,
    second_time: Timestamp,
)
    requires
        ledger.wf(),
        ledger.can_mine(),
        ledger.mined(first_miner, first_time).can_mine(),
    ensures
        ({
            let once = ledger.mined(first_miner, first_time);
            let twice = once.mined(second_miner, second_time);
            &&& twice.wf()
            &&& chain_valid(twice.chain)
            &&& twice.chain.len() == ledger.chain.len() + 2
            &&& linked(ledger.last(), once.last())
            &&& linked(once.last(), twice.last())
        }),
{
    lemma_mined_keeps_invariant(ledger, first_miner, first_time);
    lemma_mined_keeps_invariant(ledger.mined(first_miner, first_time), second_miner, second_time);
}

/// Registering an address a second time changes nothing: the list holds it
/// once. On a ledger without peers, two registrations of one address leave
/// exactly one entry.
pub proof fn lemma_register_twice(ledger: LedgerView, address: Seq<char>)
    requires
        ledger.wf(),
    ensures
        ledger.with_node(address).wf(),
        ledger.with_node(address).nodes.contains(address),
        ledger.with_node(address).with_node(address) == ledger.with_node(address),
        ledger.nodes.len() == 0 ==> ledger.with_node(address).with_node(address).nodes.len() == 1,
{
    let once = ledger.with_node(address);
    if ledger.nodes.contains(address) {
    } else {
        assert(once.nodes[ledger.nodes.len() as int] == address);
    }
}

/// The views of a list of addresses, in order.
pub open spec fn addresses_view(nodes: Seq<String>) -> Seq<Seq<char>> {
    nodes.map_values(|s: String| s@)
}

impl View for Blockchain {
    type V = LedgerView;

    closed spec fn view(&self) -> LedgerView {
        LedgerView {
            chain: blocks_view(self.chain@),
            pending: transactions_view(self.current_transactions@),
            nodes: addresses_view(self.nodes@),
        }
    }
}

impl Blockchain {
    /// Whether this ledger satisfies the ledger invariant.
    pub open spec fn wf(&self) -> bool {
        self@.wf()
    }

    /// A ledger that holds the genesis block, created now, and nothing else.
    pub fn new() -> (ledger: Blockchain)
        ensures
            ledger.wf(),
            ledger@.chain.len() == 1,
            ledger@.pending.len() == 0,
            exists|timestamp: Timestamp| ledger@ == LedgerView::fresh(timestamp),
    {
        Blockchain::new_at(Timestamp::now())
    }

    /// A ledger that holds the genesis block, created at `timestamp`, and
    /// nothing else.
    pub fn new_at(timestamp: Timestamp) -> (ledger: Blockchain)
        ensures
            ledger.wf(),
            ledger@ == LedgerView::fresh(timestamp),
    {
        let mut chain: Vec<Block> = Vec::new();
        chain.push(Blockchain::genesis_block(timestamp));
        let ledger = Blockchain { chain, nodes: Vec::new(), current_transactions: Vec::new() };
        assert(ledger@.chain =~= seq![genesis(timestamp)]);
        assert(ledger@.pending =~= Seq::empty());
        assert(ledger@.nodes =~= Seq::empty());
        ledger
    }

    /// The first block of a chain, created at `timestamp`.
    pub fn genesis_block(timestamp: Timestamp) -> (block: Block)
        ensures
            block@ == genesis(timestamp),
    {
        let block = Block {
            index: 1,
            timestamp,
            transactions: Vec::new(),
            proof: GENESIS_PROOF,
            previous_hash: "1".to_owned(),
        };
        assert(block@.transactions =~= Seq::empty());
        block
    }

    /// Appends a block with the given digest and proof, stamped now, if it
    /// may follow the newest block. The block takes the whole pending pool.
    pub fn new_block(&mut self, previous_hash: String, proof: u64) -> (appended: Result<
        &Block,
        ChainError,
    >)
        requires
            old(self).wf(),
        ensures
            final(self).wf(),
            match appended {
                Ok(block) => {
                    &&& old(self)@.accepts(previous_hash@, proof)
                    &&& is_hex_digest(previous_hash@)
                    &&& old(self)@.has_room()
                    &&& exists|timestamp: Timestamp|
                        block@ == old(self)@.next_block(previous_hash@, proof, timestamp)
                    &&& final(self)@ == old(self)@.with_block(block@)
                },
                Err(error) => {
                    &&& final(self)@ == old(self)@
                    &&& error == old(self)@.append_error(previous_hash@, proof)
                    &&& !(old(self)@.accepts(previous_hash@, proof) && old(self)@.has_room())
                },
            },
    {
        self.new_block_at(previous_hash, proof, Timestamp::now())
    }

    /// Appends a block with the given digest, proof and time stamp, if it
    /// may follow the newest block. The block takes the whole pending pool.
    pub fn new_block_at(
        &mut self,
        previous_hash: String,
        proof: u64,
        timestamp: Timestamp,
    ) -> (appended: Result<&Block, ChainError>)
        requires
            old(self).wf(),
        ensures
            final(self).wf(),
            match appended {
                Ok(block) => {
                    &&& old(self)@.accepts(previous_hash@, proof)
                    &&& is_hex_digest(previous_hash@)
                    &&& old(self)@.has_room()
                    &&& block@ == old(self)@.next_block(previous_hash@, proof, timestamp)
                    &&& final(self)@ == old(self)@.with_block(block@)
                },
                Err(error) => {
                    &&& final(self)@ == old(self)@
                    &&& error == old(self)@.append_error(previous_hash@, proof)
                    &&& !(old(self)@.accepts(previous_hash@, proof) && old(self)@.has_room())
                },
            },
    {
        let n = self.chain.len();
        let last = &self.chain[n - 1];
        let named = match Blockchain::hash_block(last) {
            Some(expected) => previous_hash == expected,
            None => false,
        };
        if !named || !Blockchain::valid_proof(last.proof, proof) {
            return Err(ChainError::ChainInvariantViolation);
        }
        match Blockchain::block_index(n) {
            Ok(_) => {},
            Err(error) => {
                return Err(error);
            },
        }
        Ok(self.append_block(previous_hash, proof, timestamp))
    }

    /// The index of the block that follows `length` blocks: indices count
    /// from 1. A chain of `u32::MAX` blocks has no next index.
    pub fn block_index(length: usize) -> (index: Result<u32, ChainError>)
        ensures
            match index {
                Ok(i) => length < u32::MAX && i == length + 1,
                Err(error) => length >= u32::MAX && error == ChainError::IndexOverflow,
            },
    {
        if length >= u32::MAX as usize {
            Err(ChainError::IndexOverflow)
        } else {
            Ok((length + 1) as u32)
        }
    }

    /// Appends the next block and hands it back.
    fn append_block(&mut self, previous_hash: String, proof: u64, timestamp: Timestamp) -> (block:
        &Block)
        requires
            old(self).wf(),
            old(self)@.accepts(previous_hash@, proof),
            old(self)@.has_room(),
        ensures
            final(self).wf(),
            block@ == old(self)@.next_block(previous_hash@, proof, timestamp),
            final(self)@ == old(self)@.with_block(block@),
    {
        let n = self.chain.len();
        let mut transactions: Vec<Transaction> = Vec::new();
        core::mem::swap(&mut self.current_transactions, &mut transactions);
        let block = Block {
            index: (n + 1) as u32,
            timestamp,
            transactions,
            proof,
            previous_hash,
        };
        proof {
            lemma_push_keeps_valid(old(self)@.chain, block@);
            assert(blocks_view(self.chain@.push(block)) =~= old(self)@.chain.push(block@));
            assert(transactions_view(self.current_transactions@) =~= Seq::empty());
        }
        self.chain.push(block);
        &self.chain[n]
    }

    /// Adds a transaction to the pending pool and returns the index of the
    /// block that will hold it: the next block to be mined. Where the chain
    /// has no room for another block, no block will ever hold the
    /// transaction: it is refused, and the pool stays as it is.
    pub fn new_transaction(&mut self, sender: &str, recipient: &str, amount: u32) -> (added: Result<
        u32,
        ChainError,
    >)
        requires
            old(self).wf(),
        ensures
            final(self).wf(),
            match added {
                Ok(index) => {
                    &&& old(self)@.has_room()
                    &&& index == old(self)@.chain.len() + 1
                    &&& final(self)@ == old(self)@.with_transaction(
                        TransactionView { sender: sender@, recipient: recipient@, amount },
                    )
                },
                Err(error) => {
                    &&& !old(self)@.has_room()
                    &&& error == ChainError::IndexOverflow
                    &&& final(self)@ == old(self)@
                },
            },
    {
        let index = match Blockchain::block_index(self.chain.len()) {
            Ok(i) => i,
            Err(error) => {
                return Err(error);
            },
        };
        self.add_pending(Transaction::new(sender, recipient, amount));
        Ok(index)
    }

    /// Puts `t` at the end of the pending pool.
    fn add_pending(&mut self, t: Transaction)
        requires
            old(self).wf(),
        ensures
            final(self).wf(),
            final(self)@ == old(self)@.with_transaction(t@),
    {
        proof {
            assert(transactions_view(self.current_transactions@.push(t))
                =~= transactions_view(self.current_transactions@).push(t@));
        }
        self.current_transactions.push(t);
    }

    /// The digest of the newest block, where it has one.
    pub fn last_block_hash(&self) -> (hex: Option<String>)
        requires
            self.wf(),
        ensures
            hex is Some <==> block_digest(self@.last()) is Some,
            hex matches Some(text) ==> block_digest(self@.last()) == Some(text@) && is_hex_digest(
                text@,
            ),
    {
        Blockchain::hash_block(&self.chain[self.chain.len() - 1])
    }

    /// Searches the smallest proof that solves the puzzle of the newest
    /// block, trying 0, 1, 2, ... in turn. The search fails only where no
    /// `u64` solves the puzzle.
    pub fn proof_of_work(&self) -> (found: Result<u64, ChainError>)
        requires
            self.wf(),
        ensures
            match found {
                Ok(p) => is_first_proof(self@.last().proof, p),
                Err(error) => {
                    &&& error == ChainError::ProofSpaceExhausted
                    &&& !has_proof(self@.last().proof)
                },
            },
    {
        let last_proof = self.chain[self.chain.len() - 1].proof;
        search_proof(last_proof, 0)
    }

    /// Mines a block for `node_identifier`, stamped now.
    pub fn mine(&mut self, node_identifier: &NodeId) -> (mined: Result<&Block, ChainError>)
        requires
            old(self).wf(),
        ensures
            final(self).wf(),
            match mined {
                Ok(block) => {
                    &&& old(self)@.can_mine()
                    &&& is_hex_digest(block@.previous_hash)
                    &&& exists|timestamp: Timestamp|
                        block@ == old(self)@.mined_block(node_identifier.value, timestamp)
                    &&& final(self)@ == old(self)@.with_block(block@)
                },
                Err(error) => {
                    &&& final(self)@ == old(self)@
                    &&& error == old(self)@.mine_error()
                    &&& !old(self)@.can_mine()
                },
            },
    {
        self.mine_at(node_identifier, Timestamp::now())
    }

    /// Mines a block for `node_identifier`, stamped `timestamp`: finds the
    /// smallest proof, adds the reward to the pending pool, and appends a
    /// block that takes the whole pool and names the digest of the block
    /// before it.
    pub fn mine_at(&mut self, node_identifier: &NodeId, timestamp: Timestamp) -> (mined: Result<
        &Block,
        ChainError,
    >)
        requires
            old(self).wf(),
        ensures
            final(self).wf(),
            match mined {
                Ok(block) => {
                    &&& old(self)@.can_mine()
                    &&& is_hex_digest(block@.previous_hash)
                    &&& block@ == old(self)@.mined_block(node_identifier.value, timestamp)
                    &&& final(self)@ == old(self)@.mined(node_identifier.value, timestamp)
                },
                Err(error) => {
                    &&& final(self)@ == old(self)@
                    &&& error == old(self)@.mine_error()
                    &&& !old(self)@.can_mine()
                },
            },
    {
        match Blockchain::block_index(self.chain.len()) {
            Ok(_) => {},
            Err(error) => {
                return Err(error);
            },
        }
        let previous_hash = match self.last_block_hash() {
            Some(text) => text,
            None => {
                return Err(ChainError::ChainInvariantViolation);
            },
        };
        let proof = match self.proof_of_work() {
            Ok(p) => p,
            Err(error) => {
                return Err(error);
            },
        };
        proof {
            lemma_first_proof_unique(self@.last().proof, proof);
        }
        let recipient = node_identifier.simple();
        self.add_pending(Transaction::new("0", recipient.as_str(), 1));
        Ok(self.append_block(previous_hash, proof, timestamp))
    }

    /// Registers the address of a peer. Registering an address again
    /// changes nothing.
    pub fn register_node(&mut self, address: String)
        requires
            old(self).wf(),
        ensures
            final(self).wf(),
            final(self)@ == old(self)@.with_node(address@),
    {
        let mut i: usize = 0;
        while i < self.nodes.len()
            invariant
                i <= self.nodes.len(),
                *self == *old(self),
                self.wf(),
                forall|j: int| 0 <= j < i ==> self@.nodes[j] != address@,
            decreases self.nodes.len() - i,
        {
            if self.nodes[i] == address {
                assert(self@.nodes[i as int] == address@);
                return ;
            }
            i += 1;
        }
        proof {
            assert(!self@.nodes.contains(address@));
            assert(addresses_view(self.nodes@.push(address)) =~= self@.nodes.push(address@));
        }
        self.nodes.push(address);
    }

    /// Registers the addresses of `node_list`, one after the other.
    pub fn register_nodes(&mut self, node_list: &Vec<String>)
        requires
            old(self).wf(),
        ensures
            final(self).wf(),
            final(self)@ == old(self)@.with_nodes(addresses_view(node_list@)),
    {
        let ghost all = addresses_view(node_list@);
        let mut i: usize = 0;
        while i < node_list.len()
            invariant
                i <= node_list.len(),
                all == addresses_view(node_list@),
                self.wf(),
                self@ == old(self)@.with_nodes(all.subrange(0, i as int)),
            decreases node_list.len() - i,
        {
            assert(all.subrange(0, i + 1).drop_last() == all.subrange(0, i as int));
            self.register_node(node_list[i].clone());
            i += 1;
        }
        assert(all.subrange(0, i as int) == all);
    }

    /// Puts `chain` in the place of the local chain.
    pub(crate) fn replace_chain(&mut self, chain: Vec<Block>)
        requires
            old(self).wf(),
            chain@.len() >= 1,
            chain_valid(blocks_view(chain@)),
        ensures
            final(self).wf(),
            final(self)@ == (LedgerView { chain: blocks_view(chain@), ..old(self)@ }),
    {
        self.chain = chain;
    }

    /// The blocks of the chain, oldest first.
    pub fn chain(&self) -> (blocks: &Vec<Block>)
        ensures
            blocks_view(blocks@) == self@.chain,
    {
        &self.chain
    }

    /// The transactions waiting for the next block, oldest first.
    pub fn transactions(&self) -> (pending: &Vec<Transaction>)
        ensures
            transactions_view(pending@) == self@.pending,
    {
        &self.current_transactions
    }

    /// The addresses of the known peers, in order of first registration.
    pub fn nodes(&self) -> (addresses: &Vec<String>)
        ensures
            addresses_view(addresses@) == self@.nodes,
    {
        &self.nodes
    }

    /// The newest block of the chain.
    pub fn last_block(&self) -> (last: Option<&Block>)
        ensures
            self@.chain.len() == 0 ==> last is None,
            self@.chain.len() > 0 ==> (last matches Some(b) && b@ == self@.chain.last()),
    {
        let n = self.chain.len();
        if n == 0 {
            None
        } else {
            Some(&self.chain[n - 1])
        }
    }
}

} // verus!
