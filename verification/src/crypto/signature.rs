//! Ed25519 signatures (64 bytes).
use crate::crypto::error::CryptoError;
use vstd::prelude::*;

verus! {

/// An Ed25519 signature.
#[derive(Debug, Clone, Copy, PartialEq, Eq)]
pub struct Signature {
    bytes: [u8; 64],
}

impl View for Signature {
    type V = Seq<u8>;

    closed spec fn view(&self) -> Seq<u8> {
        self.bytes@
    }
}

impl Signature {
    /// The signature with these bytes.
    pub(crate) fn from_array(bytes: [u8; 64]) -> (r: Self)
        ensures
            r@ == bytes@,
    {
        Signature { bytes }
    }

    /// The bytes of the signature, as an array.
    pub(crate) fn array(&self) -> (r: &[u8; 64])
        ensures
            r@ == self@,
    {
        &self.bytes
    }

    /// The 64 bytes of the signature.
    pub fn as_bytes(&self) -> (r: Vec<u8>)
        ensures
            r@ == self@,
    {
        vstd::slice::slice_to_vec(&self.bytes)
    }

    /// A signature from its bytes; `InvalidSignature` unless there are
    /// exactly 64 of them.
    pub fn from_bytes(bytes: &[u8]) -> (r: Result<Self, CryptoError>)
        ensures
            bytes@.len() == 64 ==> (r matches Ok(s) && s@ == bytes@),
            bytes@.len() != 64 ==> r == Err::<Signature, CryptoError>(CryptoError::InvalidSignature),
    {
        if bytes.len() != 64 {
            return Err(CryptoError::InvalidSignature);
        }
        let mut arr = [0u8; 64];
        let mut i: usize = 0;
        while i < 64
            invariant
                i <= 64,
                bytes@.len() == 64,
                forall|k: int| 0 <= k < i ==> arr@[k] == bytes@[k],
            decreases 64 - i,
        {
            arr[i] = bytes[i];
            i = i + 1;
        }
        assert(arr@ =~= bytes@);
        Ok(Signature { bytes: arr })
    }

    /// The bytes, to be stored in a transaction.
    pub fn to_vec(&self) -> (r: Vec<u8>)
        ensures
            r@ == self@,
    {
        vstd::slice::slice_to_vec(&self.bytes)
    }
}

} // verus!
