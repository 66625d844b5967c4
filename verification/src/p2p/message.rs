//! The messages nodes send each other, and their gossip topics.
use crate::primitives::block::{Block, BlockHeader};
use crate::primitives::hash;
use crate::primitives::transaction::Transaction;
use crate::primitives::types::BlockHeight;
use vstd::prelude::*;

verus! {

/// A message between nodes.
#[derive(Debug)]
pub enum NetworkMessage {
    /// A newly mined block.
    NewBlock(Box<Block>),
    /// A request for the block with this hash.
    GetBlock {
        /// The hash of the block asked for.
        hash: hash::Hash,
    },
    /// A request for a range of blocks.
    GetBlocks {
        /// The first height asked for.
        start_height: BlockHeight,
        /// The last height asked for.
        end_height: BlockHeight,
    },
    /// Blocks sent in answer.
    Blocks(Vec<Block>),
    /// Headers only (for light clients).
    Headers(Vec<BlockHeader>),
    /// A new transaction.
    NewTransaction(Box<Transaction>),
    /// A node's view of its chain.
    Status {
        /// Protocol version.
        version: u32,
        /// Hash of the best tip.
        best_hash: hash::Hash,
        /// Height of the best tip.
        best_height: BlockHeight,
        /// Hash of the genesis block (to check that the networks match).
        genesis_hash: hash::Hash,
    },
    /// Block hashes, in answer to a request for synchronisation.
    Inventory(Vec<hash::Hash>),
    /// Keepalive.
    Ping {
        /// A nonce that the answer echoes.
        nonce: u64,
    },
    /// Answer to a keepalive.
    Pong {
        /// The nonce of the ping.
        nonce: u64,
    },
}

/// The topic of blocks and block requests.
pub open spec fn blocks_topic() -> Seq<char> {
    "quench/blocks/1"@
}

/// The topic of headers.
pub open spec fn headers_topic() -> Seq<char> {
    "quench/headers/1"@
}

/// The topic of transactions.
pub open spec fn txs_topic() -> Seq<char> {
    "quench/txs/1"@
}

/// The topic of status, inventory and keepalive messages.
pub open spec fn control_topic() -> Seq<char> {
    "quench/control/1"@
}

/// The gossip topic of each message.
pub open spec fn topic_of(m: NetworkMessage) -> Seq<char> {
    match m {
        NetworkMessage::NewBlock(_) | NetworkMessage::GetBlock { .. } | NetworkMessage::GetBlocks {
            ..
        } | NetworkMessage::Blocks(_) => blocks_topic(),
        NetworkMessage::Headers(_) => headers_topic(),
        NetworkMessage::NewTransaction(_) => txs_topic(),
        _ => control_topic(),
    }
}

impl NetworkMessage {
    /// The gossip topic the message is published on.
    pub fn topic(&self) -> (r: &'static str)
        ensures
            r@ == topic_of(*self),
    {
        match self {
            NetworkMessage::NewBlock(_) | NetworkMessage::GetBlock { .. } | NetworkMessage::GetBlocks {
                ..
            } | NetworkMessage::Blocks(_) => "quench/blocks/1",
            NetworkMessage::Headers(_) => "quench/headers/1",
            NetworkMessage::NewTransaction(_) => "quench/txs/1",
            _ => "quench/control/1",
        }
    }
}

/// The topics a node subscribes to, in order: blocks, transactions,
/// headers, control.
pub fn subscribed_topics() -> (r: Vec<&'static str>)
    ensures
        r@.len() == 4,
        r@[0]@ == blocks_topic(),
        r@[1]@ == txs_topic(),
        r@[2]@ == headers_topic(),
        r@[3]@ == control_topic(),
{
    let mut v: Vec<&'static str> = Vec::new();
    v.push("quench/blocks/1");
    v.push("quench/txs/1");
    v.push("quench/headers/1");
    v.push("quench/control/1");
    v
}

/// Every message goes out on a topic that every node subscribes to.
pub proof fn lemma_topic_subscribed(m: NetworkMessage)
    ensures
        topic_of(m) == blocks_topic() || topic_of(m) == txs_topic() || topic_of(m)
            == headers_topic() || topic_of(m) == control_topic(),
{
}

} // verus!
