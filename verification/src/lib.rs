//! A minimal proof-of-work ledger: blocks chained by SHA-256 digests, a
//! pending-transaction pool, and longest-valid-chain consensus.

pub mod digest;
pub mod encoding;
pub mod block;
pub mod clock;
pub mod identity;
pub mod pow;
pub mod chain;
pub mod blockchain;
pub mod error;
pub mod consensus;
pub mod response_types;

pub use crate::block::{Block, Timestamp, Transaction};
pub use crate::blockchain::Blockchain;
pub use crate::consensus::{ChainResponse, PeerError};
pub use crate::error::ChainError;
pub use crate::identity::NodeId;
pub use crate::response_types::{
    FullChain, FullChainResponse, MineResponse, NewTransactionResponse, NodeRegResponse,
    NodeResolveResponse,
};
