use crate::primitives::error::concat_msg;
use vstd::prelude::*;

verus! {

/// Errors of the peer-to-peer layer.
#[derive(Debug)]
pub enum P2pError {
    /// The network or a protocol failed to start.
    Init(String),
    /// A multiaddr text is invalid.
    InvalidAddr,
    /// The internal message channel is closed.
    ChannelClosed,
    /// A message failed to encode or decode.
    Codec(String),
}

/// The message of each error.
pub open spec fn p2p_message(e: P2pError) -> Seq<char> {
    match e {
        P2pError::Init(s) => "failed to initialize network: "@ + s@,
        P2pError::InvalidAddr => "invalid multiaddr"@,
        P2pError::ChannelClosed => "channel closed"@,
        P2pError::Codec(s) => "encode/decode error: "@ + s@,
    }
}

impl P2pError {
    /// The error's message.
    pub fn message(&self) -> (r: String)
        ensures
            r@ == p2p_message(*self),
    {
        match self {
            P2pError::Init(s) => concat_msg("failed to initialize network: ", s),
            P2pError::InvalidAddr => String::from_str("invalid multiaddr"),
            P2pError::ChannelClosed => String::from_str("channel closed"),
            P2pError::Codec(s) => concat_msg("encode/decode error: ", s),
        }
    }
}

} // verus!
