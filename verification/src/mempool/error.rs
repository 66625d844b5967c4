use crate::primitives::digest::hex_lower;
use crate::primitives::error::concat_msg;
use crate::primitives::transaction::TxId;
use vstd::prelude::*;

verus! {

/// Errors of mempool operations.
#[derive(Debug)]
pub enum MempoolError {
    /// A transaction with this id is in the pool already.
    DuplicateTransaction(TxId),
    /// The transaction failed basic validation.
    InvalidTransaction(String),
    /// The pool is full and no transaction could be evicted.
    Full,
    /// No transaction with the given id.
    NotFound,
}

/// The message of each error.
pub open spec fn mempool_message(e: MempoolError) -> Seq<char> {
    match e {
        MempoolError::DuplicateTransaction(h) => "duplicate transaction: "@ + hex_lower(h@),
        MempoolError::InvalidTransaction(s) => "invalid transaction: "@ + s@,
        MempoolError::Full => "mempool is full"@,
        MempoolError::NotFound => "transaction not found"@,
    }
}

impl MempoolError {
    /// The error's message.
    pub fn message(&self) -> (r: String)
        ensures
            r@ == mempool_message(*self),
    {
        match self {
            MempoolError::DuplicateTransaction(h) => {
                let hx = h.to_hex();
                concat_msg("duplicate transaction: ", &hx)
            },
            MempoolError::InvalidTransaction(s) => concat_msg("invalid transaction: ", s),
            MempoolError::Full => String::from_str("mempool is full"),
            MempoolError::NotFound => String::from_str("transaction not found"),
        }
    }
}

} // verus!
