use vstd::prelude::*;

verus! {

/// Every error that the primitive types can report.
#[derive(Debug, Clone, PartialEq, Eq)]
pub enum PrimitivesError {
    /// Invalid address format or value.
    InvalidAddress(String),
    /// Transaction failed validation.
    InvalidTransaction(String),
    /// Block failed validation.
    InvalidBlock(String),
    /// Merkle root does not match the transactions.
    InvalidMerkleRoot,
    /// Block does not meet the required proof-of-work target.
    InsufficientProofOfWork,
    /// Failed to serialize or deserialize data.
    Serialization(String),
    /// Arithmetic overflow when handling amounts.
    AmountOverflow,
}

/// Errors reported when hex text is decoded.
#[derive(Debug, Clone, Copy, PartialEq, Eq, Structural)]
pub enum HexError {
    /// A byte of the input is not a hex digit.
    InvalidHexCharacter { c: char, index: usize },
    /// The input has an odd number of digits.
    OddLength,
    /// The decoded value does not have the expected length.
    InvalidStringLength,
}

/// The message of each error.
pub open spec fn primitives_message(e: PrimitivesError) -> Seq<char> {
    match e {
        PrimitivesError::InvalidAddress(s) => "invalid address: "@ + s@,
        PrimitivesError::InvalidTransaction(s) => "invalid transaction: "@ + s@,
        PrimitivesError::InvalidBlock(s) => "invalid block: "@ + s@,
        PrimitivesError::InvalidMerkleRoot => "invalid merkle root"@,
        PrimitivesError::InsufficientProofOfWork => "insufficient proof of work"@,
        PrimitivesError::Serialization(s) => "serialization error: "@ + s@,
        PrimitivesError::AmountOverflow => "overflow in amount calculation"@,
    }
}

impl PrimitivesError {
    /// The error's message.
    pub fn message(&self) -> (r: String)
        ensures
            r@ == primitives_message(*self),
    {
        match self {
            PrimitivesError::InvalidAddress(s) => concat_msg("invalid address: ", s),
            PrimitivesError::InvalidTransaction(s) => concat_msg("invalid transaction: ", s),
            PrimitivesError::InvalidBlock(s) => concat_msg("invalid block: ", s),
            PrimitivesError::InvalidMerkleRoot => String::from_str("invalid merkle root"),
            PrimitivesError::InsufficientProofOfWork => String::from_str("insufficient proof of work"),
            PrimitivesError::Serialization(s) => concat_msg("serialization error: ", s),
            PrimitivesError::AmountOverflow => String::from_str("overflow in amount calculation"),
        }
    }
}

/// `prefix` followed by `s`.
pub fn concat_msg(prefix: &str, s: &String) -> (r: String)
    ensures
        r@ == prefix@ + s@,
{
    let mut r = String::from_str(prefix);
    r.append(s.as_str());
    r
}

} // verus!
