//! A minimal proof-of-work blockchain node: transactions, blocks, the chain
//! with its extension rule, the miner's nonce search, the mempool, the peer
//! registry and the node's message handling, each with a verified contract.

pub mod block;
pub mod blockchain;
pub mod client;
pub mod digest;
pub mod error;
mod host;
pub mod json;
pub mod mempool;
pub mod miner;
pub mod node;
pub mod ordered;
pub mod peers;
pub mod text;
pub mod transaction;
