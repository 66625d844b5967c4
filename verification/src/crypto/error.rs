use vstd::prelude::*;

verus! {

/// Errors of cryptographic operations.
#[derive(Debug, Clone, Copy, PartialEq, Eq, Structural)]
pub enum CryptoError {
    /// The signature does not match the message or the public key.
    SignatureVerificationFailed,
    /// The bytes are not a valid Ed25519 public key.
    InvalidPublicKey,
    /// The bytes are not a valid Ed25519 signature.
    InvalidSignature,
    /// The bytes are not a valid Ed25519 private key.
    InvalidPrivateKey,
}

/// The message of each error.
pub open spec fn crypto_message(e: CryptoError) -> Seq<char> {
    match e {
        CryptoError::SignatureVerificationFailed => "signature verification failed"@,
        CryptoError::InvalidPublicKey => "invalid public key bytes"@,
        CryptoError::InvalidSignature => "invalid signature bytes"@,
        CryptoError::InvalidPrivateKey => "invalid private key bytes"@,
    }
}

impl CryptoError {
    /// The error's message.
    pub fn message(&self) -> (r: String)
        ensures
            r@ == crypto_message(*self),
    {
        match self {
            CryptoError::SignatureVerificationFailed => String::from_str("signature verification failed"),
            CryptoError::InvalidPublicKey => String::from_str("invalid public key bytes"),
            CryptoError::InvalidSignature => String::from_str("invalid signature bytes"),
            CryptoError::InvalidPrivateKey => String::from_str("invalid private key bytes"),
        }
    }
}

} // verus!
