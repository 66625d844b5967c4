use crate::primitives::error::concat_msg;
use vstd::prelude::*;

verus! {

/// Errors of storage operations.
#[derive(Debug, PartialEq, Eq)]
pub enum StorageError {
    /// Failed to open the database.
    Open(String),
    /// A write operation failed.
    Write(String),
    /// A read operation failed.
    Read(String),
    /// Failed to serialize or deserialize a value.
    Serialization(String),
    /// The database contains corrupt or unexpected data.
    Corruption(String),
    /// The account has insufficient balance for the operation.
    InsufficientBalance,
    /// An arithmetic overflow occurred when handling an amount.
    Overflow,
    /// No block found for the given hash or height.
    BlockNotFound(String),
}

/// The message of each error.
pub open spec fn storage_message(e: StorageError) -> Seq<char> {
    match e {
        StorageError::Open(s) => "failed to open database: "@ + s@,
        StorageError::Write(s) => "write error: "@ + s@,
        StorageError::Read(s) => "read error: "@ + s@,
        StorageError::Serialization(s) => "serialization error: "@ + s@,
        StorageError::Corruption(s) => "database corruption: "@ + s@,
        StorageError::InsufficientBalance => "insufficient balance"@,
        StorageError::Overflow => "amount overflow"@,
        StorageError::BlockNotFound(s) => "block not found: "@ + s@,
    }
}

impl Clone for StorageError {
    fn clone(&self) -> (r: Self)
        ensures
            r == *self,
    {
        match self {
            StorageError::Open(s) => StorageError::Open(s.clone()),
            StorageError::Write(s) => StorageError::Write(s.clone()),
            StorageError::Read(s) => StorageError::Read(s.clone()),
            StorageError::Serialization(s) => StorageError::Serialization(s.clone()),
            StorageError::Corruption(s) => StorageError::Corruption(s.clone()),
            StorageError::InsufficientBalance => StorageError::InsufficientBalance,
            StorageError::Overflow => StorageError::Overflow,
            StorageError::BlockNotFound(s) => StorageError::BlockNotFound(s.clone()),
        }
    }
}

impl StorageError {
    /// The error's message.
    pub fn message(&self) -> (r: String)
        ensures
            r@ == storage_message(*self),
    {
        match self {
            StorageError::Open(s) => concat_msg("failed to open database: ", s),
            StorageError::Write(s) => concat_msg("write error: ", s),
            StorageError::Read(s) => concat_msg("read error: ", s),
            StorageError::Serialization(s) => concat_msg("serialization error: ", s),
            StorageError::Corruption(s) => concat_msg("database corruption: ", s),
            StorageError::InsufficientBalance => String::from_str("insufficient balance"),
            StorageError::Overflow => String::from_str("amount overflow"),
            StorageError::BlockNotFound(s) => concat_msg("block not found: ", s),
        }
    }
}

} // verus!
