use vstd::prelude::*;

verus! {

/// Errors of consensus operations.
#[derive(Debug)]
pub enum ConsensusError {
    /// Mining was cancelled (typically because a block came in from the
    /// network).
    MiningCancelled,
    /// The block does not meet the required proof-of-work target.
    InsufficientWork,
    /// The block's parent is not known.
    UnknownParent(String),
    /// An unexpected internal error.
    Internal(String),
}

/// The message of each error.
pub open spec fn consensus_message(e: ConsensusError) -> Seq<char> {
    match e {
        ConsensusError::MiningCancelled => "mining was cancelled (new block received from network)"@,
        ConsensusError::InsufficientWork => "insufficient proof of work"@,
        ConsensusError::UnknownParent(s) => "unknown parent block: "@ + s@,
        ConsensusError::Internal(s) => "internal consensus error: "@ + s@,
    }
}

impl ConsensusError {
    /// The error's message.
    pub fn message(&self) -> (r: String)
        ensures
            r@ == consensus_message(*self),
    {
        match self {
            ConsensusError::MiningCancelled => String::from_str(
                "mining was cancelled (new block received from network)",
            ),
            ConsensusError::InsufficientWork => String::from_str("insufficient proof of work"),
            ConsensusError::UnknownParent(s) => crate::primitives::error::concat_msg(
                "unknown parent block: ",
                s,
            ),
            ConsensusError::Internal(s) => crate::primitives::error::concat_msg(
                "internal consensus error: ",
                s,
            ),
        }
    }
}

} // verus!
