//! The response and request types of the API.
use crate::primitives::hash;
use crate::primitives::types::{Address, Amount, BlockHeight};
use vstd::prelude::*;

verus! {

/// Information about the chain.
#[derive(Debug)]
pub struct ChainInfo {
    /// The network's name.
    pub network_name: String,
    /// Height of the best tip.
    pub best_height: BlockHeight,
    /// Hash of the best tip.
    pub best_hash: hash::Hash,
    /// Coins in circulation, in rustoshi.
    pub total_supply: Amount,
    /// Number of connected peers.
    pub peer_count: usize,
    /// Whether the node is syncing.
    pub is_syncing: bool,
}

/// Information about a peer.
#[derive(Debug)]
pub struct PeerInfo {
    /// The peer's id.
    pub peer_id: String,
    /// The peer's network address.
    pub address: String,
    /// The protocol version the peer reports.
    pub version: String,
    /// The best height the peer knows.
    pub best_height: BlockHeight,
    /// Round-trip time to the peer in milliseconds.
    pub latency_ms: u64,
}

/// The receipt of a transaction included in a block.
#[derive(Debug)]
pub struct TxReceipt {
    /// The transaction's id.
    pub tx_id: hash::Hash,
    /// Hash of the block that includes it.
    pub block_hash: hash::Hash,
    /// Height of that block.
    pub block_height: BlockHeight,
    /// Index of the transaction in the block.
    pub tx_index: u32,
    /// Whether it executed successfully.
    pub success: bool,
    /// Gas used (contract calls).
    pub gas_used: Option<u64>,
    /// Events the contract emitted.
    pub logs: Vec<EventLog>,
}

/// An event emitted by a contract.
#[derive(Debug)]
pub struct EventLog {
    /// The contract that emitted it.
    pub contract: Address,
    /// The event's name.
    pub name: String,
    /// The event's data, hex-encoded.
    pub data: String,
}

/// A request to send a transaction.
#[derive(Debug)]
pub struct SendTransactionRequest {
    /// The transaction, hex-encoded.
    pub raw: String,
}

} // verus!
