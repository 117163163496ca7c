//! The errors that the library returns.

use crate::peers::Address;
use vstd::prelude::*;

verus! {

/// A text that has no JSON form, so that nothing can be hashed over it.
#[derive(Debug, Clone, Copy, PartialEq, Eq, Structural)]
pub enum EncodeError {
    /// The JSON writer failed on a string.
    Json,
}

/// Why a block was not appended to a chain.
#[derive(Debug, Clone, Copy, PartialEq, Eq, Structural)]
pub enum ChainError {
    /// The block's `previous_hash` is not the hash of the chain's last block.
    InvalidExtension,
}

/// Why the miner produced no block.
#[derive(Debug, Clone, Copy, PartialEq, Eq, Structural)]
pub enum MineError {
    /// A transaction or the block itself has no JSON form.
    Unencodable,
    /// None of the nonces that were tried meets the target.
    Exhausted,
}

/// What went wrong between this node and a peer. The text in three of the
/// variants is the description of the underlying I/O error.
#[derive(Debug, PartialEq, Eq)]
pub enum NetworkError {
    FailedToConnect(Address, String),
    FailedToSend(Address, String),
    FailedToReceive(Address, String),
    NoACKReceipt(Address),
    UnexpectedACK(Address),
    /// The boot node did not answer with its state.
    BootNodeReceiveError(Address),
    DeserializeError,
}

} // verus!
