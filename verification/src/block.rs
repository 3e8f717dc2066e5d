//! Transactions and blocks, their mathematical views, and the canonical text
//! over which a block is hashed.

use crate::blockchain::Blockchain;
use crate::digest::{hashable, is_hex_digest, sha256_hex, sha256_hex_checked};
use crate::encoding::{decimal, push_bytes, push_decimal, push_quoted, quoted};
use vstd::prelude::*;
use vstd::string::StringSliceAdditionalSpecFns;
use vstd::utf8::encode_utf8;

verus! {

/// A point in time, counted from the Unix epoch.
#[derive(Clone, Copy, Debug, PartialEq, Eq, Structural)]
pub struct Timestamp {
    pub secs_since_epoch: u64,
    pub nanos_since_epoch: u32,
}

/// A transfer of `amount` from `sender` to `recipient`.
#[derive(Debug, PartialEq, Eq)]
pub struct Transaction {
    pub sender: String,
    pub recipient: String,
    pub amount: u32,
}

/// What a `Transaction` holds, as plain mathematical values.
pub struct TransactionView {
    pub sender: Seq<char>,
    pub recipient: Seq<char>,
    pub amount: u32,
}

impl View for Transaction {
    type V = TransactionView;

    open spec fn view(&self) -> TransactionView {
        TransactionView { sender: self.sender@, recipient: self.recipient@, amount: self.amount }
    }
}

impl Clone for Transaction {
    fn clone(&self) -> (copy: Self)
        ensures
            copy@ == self@,
    {
        Transaction {
            sender: self.sender.clone(),
            recipient: self.recipient.clone(),
            amount: self.amount,
        }
    }
}

impl Transaction {
    /// A transaction with the given parties and amount.
    pub fn new(sender: &str, recipient: &str, amount: u32) -> (t: Transaction)
        ensures
            t@ == (TransactionView { sender: sender@, recipient: recipient@, amount }),
    {
        Transaction { sender: sender.to_owned(), recipient: recipient.to_owned(), amount }
    }
}

/// The views of a sequence of transactions, in order.
pub open spec fn transactions_view(ts: Seq<Transaction>) -> Seq<TransactionView> {
    ts.map_values(|t: Transaction| t@)
}

/// Copies a list of transactions.
pub fn clone_transactions(ts: &Vec<Transaction>) -> (copy: Vec<Transaction>)
    ensures
        transactions_view(copy@) == transactions_view(ts@),
{
    let mut copy: Vec<Transaction> = Vec::new();
    let mut i: usize = 0;
    while i < ts.len()
        invariant
            i <= ts.len(),
            copy.len() == i,
            forall|j: int| 0 <= j < i ==> copy[j]@ == ts[j]@,
        decreases ts.len() - i,
    {
        copy.push(ts[i].clone());
        i += 1;
    }
    assert(transactions_view(copy@) =~= transactions_view(ts@));
    copy
}

/// One link of the chain.
#[derive(Debug, PartialEq, Eq)]
pub struct Block {
    pub index: u32,
    pub timestamp: Timestamp,
    pub transactions: Vec<Transaction>,
    pub proof: u64,
    pub previous_hash: String,
}

/// What a `Block` holds, as plain mathematical values.
pub struct BlockView {
    pub index: u32,
    pub timestamp: Timestamp,
    pub transactions: Seq<TransactionView>,
    pub proof: u64,
    pub previous_hash: Seq<char>,
}

impl View for Block {
    type V = BlockView;

    open spec fn view(&self) -> BlockView {
        BlockView {
            index: self.index,
            timestamp: self.timestamp,
            transactions: transactions_view(self.transactions@),
            proof: self.proof,
            previous_hash: self.previous_hash@,
        }
    }
}

impl Clone for Block {
    fn clone(&self) -> (copy: Self)
        ensures
            copy@ == self@,
    {
        Block {
            index: self.index,
            timestamp: self.timestamp,
            transactions: clone_transactions(&self.transactions),
            proof: self.proof,
            previous_hash: self.previous_hash.clone(),
        }
    }
}

/// The views of a sequence of blocks, in order.
pub open spec fn blocks_view(blocks: Seq<Block>) -> Seq<BlockView> {
    blocks.map_values(|b: Block| b@)
}

/// The UTF-8 bytes of a piece of fixed text.
pub open spec fn text(s: &str) -> Seq<u8> {
    s.spec_bytes()
}

/// The canonical text of one transaction: a compact JSON object with the
/// fields `sender`, `recipient` and `amount`, in that order.
pub open spec fn transaction_text(t: TransactionView) -> Seq<u8> {
    text("{\"sender\":") + quoted(encode_utf8(t.sender)) + text(",\"recipient\":") + quoted(
        encode_utf8(t.recipient),
    ) + text(",\"amount\":") + decimal(t.amount as nat) + text("}")
}

/// The canonical texts of a list of transactions, separated by commas.
pub open spec fn transactions_text(ts: Seq<TransactionView>) -> Seq<u8>
    decreases ts.len(),
{
    if ts.len() == 0 {
        Seq::empty()
    } else if ts.len() == 1 {
        transaction_text(ts[0])
    } else {
        transactions_text(ts.drop_last()) + text(",") + transaction_text(ts.last())
    }
}

/// The canonical text of a block: a compact JSON object with the fields
/// `index`, `timestamp` (itself an object of `secs_since_epoch` and
/// `nanos_since_epoch`), `transactions`, `proof` and `previous_hash`, in that
/// order and without white space.
pub open spec fn block_text(b: BlockView) -> Seq<u8> {
    text("{\"index\":") + decimal(b.index as nat) + text(",\"timestamp\":{\"secs_since_epoch\":")
        + decimal(b.timestamp.secs_since_epoch as nat) + text(",\"nanos_since_epoch\":") + decimal(
        b.timestamp.nanos_since_epoch as nat,
    ) + text("},\"transactions\":[") + transactions_text(b.transactions) + text("],\"proof\":")
        + decimal(b.proof as nat) + text(",\"previous_hash\":") + quoted(
        encode_utf8(b.previous_hash),
    ) + text("}")
}

/// The digest of a block: the SHA-256 of its canonical text, in hexadecimal.
/// A block whose canonical text is too long to be hashed has no digest.
pub open spec fn block_digest(b: BlockView) -> Option<Seq<char>> {
    if hashable(block_text(b)) {
        Some(sha256_hex(block_text(b)))
    } else {
        None
    }
}

/// Appends a piece of fixed text to `out`.
fn push_text(out: &mut Vec<u8>, s: &str)
    ensures
        final(out)@ == old(out)@ + text(s),
{
    push_bytes(out, s.as_bytes());
}

/// Appends the canonical text of `t` to `out`.
fn push_transaction(out: &mut Vec<u8>, t: &Transaction)
    ensures
        final(out)@ == old(out)@ + transaction_text(t@),
{
    push_text(out, "{\"sender\":");
    push_quoted(out, t.sender.as_str().as_bytes());
    push_text(out, ",\"recipient\":");
    push_quoted(out, t.recipient.as_str().as_bytes());
    push_text(out, ",\"amount\":");
    push_decimal(out, t.amount as u64);
    push_text(out, "}");
}

/// Appends the canonical texts of `ts`, separated by commas, to `out`.
fn push_transactions(out: &mut Vec<u8>, ts: &Vec<Transaction>)
    ensures
        final(out)@ == old(out)@ + transactions_text(transactions_view(ts@)),
{
    let ghost views = transactions_view(ts@);
    let mut i: usize = 0;
    while i < ts.len()
        invariant
            i <= ts.len(),
            views == transactions_view(ts@),
            out@ == old(out)@ + transactions_text(views.subrange(0, i as int)),
        decreases ts.len() - i,
    {
        assert(views.subrange(0, i + 1).drop_last() == views.subrange(0, i as int));
        assert(views.subrange(0, i + 1).last() == ts[i as int]@);
        if i > 0 {
            push_text(out, ",");
        }
        push_transaction(out, &ts[i]);
        i += 1;
    }
    assert(views.subrange(0, i as int) == views);
}

/// The canonical text of a block.
pub fn serialize_block(block: &Block) -> (out: Vec<u8>)
    ensures
        out@ == block_text(block@),
{
    let mut out: Vec<u8> = Vec::new();
    push_text(&mut out, "{\"index\":");
    push_decimal(&mut out, block.index as u64);
    push_text(&mut out, ",\"timestamp\":{\"secs_since_epoch\":");
    push_decimal(&mut out, block.timestamp.secs_since_epoch);
    push_text(&mut out, ",\"nanos_since_epoch\":");
    push_decimal(&mut out, block.timestamp.nanos_since_epoch as u64);
    push_text(&mut out, "},\"transactions\":[");
    push_transactions(&mut out, &block.transactions);
    push_text(&mut out, "],\"proof\":");
    push_decimal(&mut out, block.proof);
    push_text(&mut out, ",\"previous_hash\":");
    push_quoted(&mut out, block.previous_hash.as_str().as_bytes());
    push_text(&mut out, "}");
    out
}

impl Blockchain {
    /// The digest of a block: the SHA-256 of its canonical text, as 64
    /// lowercase hexadecimal digits. `None` where that text is too long to
    /// be hashed.
    pub fn hash_block(block: &Block) -> (hex: Option<String>)
        ensures
            hex is Some <==> block_digest(block@) is Some,
            hex matches Some(text) ==> block_digest(block@) == Some(text@) && is_hex_digest(text@),
    {
        let bytes = serialize_block(block);
        sha256_hex_checked(&bytes)
    }
}

} // verus!
