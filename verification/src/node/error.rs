use crate::primitives::error::concat_msg;
use vstd::prelude::*;

verus! {

/// Errors of node operations.
#[derive(Debug)]
pub enum NodeError {
    /// A component failed to start.
    Init(String),
    /// A storage operation failed.
    Storage(String),
    /// A network operation failed.
    Network(String),
    /// A consensus operation failed.
    Consensus(String),
    /// An RPC operation failed.
    Rpc(String),
}

/// The message of each error.
pub open spec fn node_message(e: NodeError) -> Seq<char> {
    match e {
        NodeError::Init(s) => "init error: "@ + s@,
        NodeError::Storage(s) => "storage error: "@ + s@,
        NodeError::Network(s) => "network error: "@ + s@,
        NodeError::Consensus(s) => "consensus error: "@ + s@,
        NodeError::Rpc(s) => "rpc error: "@ + s@,
    }
}

impl NodeError {
    /// The error's message.
    pub fn message(&self) -> (r: String)
        ensures
            r@ == node_message(*self),
    {
        match self {
            NodeError::Init(s) => concat_msg("init error: ", s),
            NodeError::Storage(s) => concat_msg("storage error: ", s),
            NodeError::Network(s) => concat_msg("network error: ", s),
            NodeError::Consensus(s) => concat_msg("consensus error: ", s),
            NodeError::Rpc(s) => concat_msg("rpc error: ", s),
        }
    }
}

} // verus!
