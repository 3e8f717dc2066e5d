//! The values in which a node answers its callers.

use crate::block::{
    blocks_view, clone_transactions, transactions_view, Block, Transaction,
};
use crate::blockchain::{addresses_view, Blockchain};
use vstd::prelude::*;

verus! {

/// The whole chain, with its length.
#[derive(Debug, PartialEq, Eq)]
pub struct FullChainResponse<'a> {
    pub chain: &'a Vec<Block>,
    pub length: u64,
}

/// The whole chain, with its length, under its shorter name.
pub type FullChain<'a> = FullChainResponse<'a>;

/// The outcome of a consensus round, with the chain that is now held.
#[derive(Debug, PartialEq, Eq)]
pub struct NodeResolveResponse<'a> {
    pub message: String,
    pub full_chain_response: FullChainResponse<'a>,
}

/// The answer to a new transaction.
#[derive(Debug, PartialEq, Eq)]
pub struct NewTransactionResponse {
    pub message: String,
    pub index: u32,
}

/// The block that was just mined.
#[derive(Debug, PartialEq, Eq)]
pub struct MineResponse {
    pub message: String,
    pub index: u32,
    pub transactions: Vec<Transaction>,
    pub proof: u64,
    pub previous_hash: String,
}

/// The peers that are known after a registration.
#[derive(Debug, PartialEq, Eq)]
pub struct NodeRegResponse<'a> {
    pub message: String,
    pub nodes: &'a Vec<String>,
}

/// The chain of `b` with its length.
pub fn chain(b: &Blockchain) -> (response: FullChainResponse<'_>)
    ensures
        blocks_view(response.chain@) == b@.chain,
        response.length == b@.chain.len(),
{
    let chain = b.chain();
    FullChainResponse { chain, length: chain.len() as u64 }
}

/// The peers of `b`, under the message that nodes were added.
pub fn node_reg(b: &Blockchain) -> (response: NodeRegResponse<'_>)
    ensures
        response.message@ == "New Nodes have been added"@,
        addresses_view(response.nodes@) == b@.nodes,
{
    NodeRegResponse { message: "New Nodes have been added".to_owned(), nodes: b.nodes() }
}

/// What a node says after a consensus round: that its chain was replaced, or
/// that it stands.
pub fn resolve_message(replaced: bool) -> (message: String)
    ensures
        message@ == if replaced {
            "Our chain was replaced"@
        } else {
            "Our chain is authoritative"@
        },
{
    if replaced {
        "Our chain was replaced".to_owned()
    } else {
        "Our chain is authoritative".to_owned()
    }
}

/// The chain of `b` with its length, under `message`.
pub fn node_resolve(message: String, b: &Blockchain) -> (response: NodeResolveResponse<'_>)
    ensures
        response.message@ == message@,
        blocks_view(response.full_chain_response.chain@) == b@.chain,
        response.full_chain_response.length == b@.chain.len(),
{
    let chain = b.chain();
    NodeResolveResponse {
        message,
        full_chain_response: FullChainResponse { chain, length: chain.len() as u64 },
    }
}

/// The fields of the mined block `b`, under the message that announces it.
pub fn mine_response(b: &Block) -> (response: MineResponse)
    ensures
        response.message@ == "Returning Block"@,
        response.index == b.index,
        transactions_view(response.transactions@) == b@.transactions,
        response.proof == b.proof,
        response.previous_hash@ == b@.previous_hash,
{
    MineResponse {
        message: "Returning Block".to_owned(),
        index: b.index,
        transactions: clone_transactions(&b.transactions),
        previous_hash: b.previous_hash.clone(),
        proof: b.proof,
    }
}

/// The answer to a transaction that joined the pending pool: the index that
/// the ledger returned for it.
pub fn transaction_response(index: u32) -> (response: NewTransactionResponse)
    ensures
        response.message@ == "New transaction added to block"@,
        response.index == index,
{
    NewTransactionResponse { message: "New transaction added to block".to_owned(), index }
}

} // verus!
