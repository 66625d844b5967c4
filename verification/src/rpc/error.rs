use crate::primitives::error::concat_msg;
use vstd::prelude::*;

verus! {

/// Errors of the RPC server.
#[derive(Debug)]
pub enum RpcError {
    /// The JSON-RPC method does not exist.
    MethodNotFound(String),
    /// Parameters are invalid or missing.
    InvalidParams(String),
    /// An unexpected internal error.
    Internal(String),
    /// The server could not bind its address.
    Bind(String),
    /// The server failed while serving.
    Serve(String),
}

/// The JSON-RPC 2.0 code of each error.
pub open spec fn rpc_code(e: RpcError) -> int {
    match e {
        RpcError::MethodNotFound(_) => -32601,
        RpcError::InvalidParams(_) => -32602,
        RpcError::Internal(_) => -32603,
        _ => -32000,
    }
}

/// The message of each error.
pub open spec fn rpc_message(e: RpcError) -> Seq<char> {
    match e {
        RpcError::MethodNotFound(s) => "method not found: "@ + s@,
        RpcError::InvalidParams(s) => "invalid params: "@ + s@,
        RpcError::Internal(s) => "internal error: "@ + s@,
        RpcError::Bind(s) => "failed to bind address: "@ + s@,
        RpcError::Serve(s) => "server error: "@ + s@,
    }
}

impl RpcError {
    /// The JSON-RPC 2.0 error code.
    pub fn code(&self) -> (r: i32)
        ensures
            r == rpc_code(*self),
    {
        match self {
            RpcError::MethodNotFound(_) => -32601,
            RpcError::InvalidParams(_) => -32602,
            RpcError::Internal(_) => -32603,
            _ => -32000,
        }
    }

    /// The error's message.
    pub fn message(&self) -> (r: String)
        ensures
            r@ == rpc_message(*self),
    {
        match self {
            RpcError::MethodNotFound(s) => concat_msg("method not found: ", s),
            RpcError::InvalidParams(s) => concat_msg("invalid params: ", s),
            RpcError::Internal(s) => concat_msg("internal error: ", s),
            RpcError::Bind(s) => concat_msg("failed to bind address: ", s),
            RpcError::Serve(s) => concat_msg("server error: ", s),
        }
    }
}

} // verus!
