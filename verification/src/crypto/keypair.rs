//! Ed25519 key pairs and the address of a public key.
use crate::crypto::error::CryptoError;
use crate::crypto::signature::Signature;
use crate::primitives::digest::{ripemd160, ripemd160_spec, sha256, sha256_spec};
use crate::primitives::types::Address;
use vstd::prelude::*;

verus! {

/// The public key that Ed25519 derives from a secret key.
pub uninterp spec fn ed25519_public_spec(secret: Seq<u8>) -> Seq<u8>;

/// The Ed25519 signature of a message under a secret key.
pub uninterp spec fn ed25519_sign_spec(secret: Seq<u8>, message: Seq<u8>) -> Seq<u8>;

/// Whether a signature of a message verifies under a public key.
pub uninterp spec fn ed25519_verify_spec(public: Seq<u8>, message: Seq<u8>, signature: Seq<u8>) -> bool;

/// Whether 32 bytes are the compressed form of a curve point, that is, a
/// usable public key.
pub uninterp spec fn ed25519_key_valid_spec(bytes: Seq<u8>) -> bool;

/// `SigningKey::from_bytes(secret).verifying_key().to_bytes()`: the public
/// key of a secret key, named; it is a valid key.
#[verifier::external_body]
fn ed25519_public(secret: &[u8; 32]) -> (r: [u8; 32])
    ensures
        r@ == ed25519_public_spec(secret@),
        ed25519_key_valid_spec(r@),
{
    ed25519_dalek::SigningKey::from_bytes(secret).verifying_key().to_bytes()
}

/// `Signer::sign` of `SigningKey`, as bytes: deterministic, so named; the
/// signature verifies under the key's public key, as the crate's
/// documentation shows.
#[verifier::external_body]
fn ed25519_sign(secret: &[u8; 32], message: &[u8]) -> (r: [u8; 64])
    ensures
        r@ == ed25519_sign_spec(secret@, message@),
        ed25519_verify_spec(ed25519_public_spec(secret@), message@, r@),
{
    let key = ed25519_dalek::SigningKey::from_bytes(secret);
    ed25519_dalek::Signer::sign(&key, message).to_bytes()
}

/// `VerifyingKey::from_bytes` then `Verifier::verify`: whether the
/// signature verifies; bytes that are no valid key verify nothing.
#[verifier::external_body]
fn ed25519_verify(public: &[u8; 32], message: &[u8], signature: &[u8; 64]) -> (r: bool)
    ensures
        r == ed25519_verify_spec(public@, message@, signature@),
{
    match ed25519_dalek::VerifyingKey::from_bytes(public) {
        Ok(vk) => ed25519_dalek::Verifier::verify(
            &vk,
            message,
            &ed25519_dalek::Signature::from_bytes(signature),
        ).is_ok(),
        Err(_) => false,
    }
}

/// `VerifyingKey::from_bytes(..).is_ok()`: whether the bytes are a valid
/// public key.
#[verifier::external_body]
fn ed25519_key_valid(bytes: &[u8; 32]) -> (r: bool)
    ensures
        r == ed25519_key_valid_spec(bytes@),
{
    ed25519_dalek::VerifyingKey::from_bytes(bytes).is_ok()
}

/// Thirty-two bytes from the operating system's secure random source.
/// Nothing is claimed of them.
#[verifier::external_body]
fn os_random_32() -> [u8; 32] {
    let mut bytes = [0u8; 32];
    rand::RngCore::fill_bytes(&mut rand::rngs::OsRng, &mut bytes);
    bytes
}

/// The address of a public key: RIPEMD-160 of its SHA-256.
pub open spec fn address_of_key(public: Seq<u8>) -> Seq<u8> {
    ripemd160_spec(sha256_spec(public))
}

/// An Ed25519 public key (32 bytes).
#[derive(Debug, Clone, Copy, PartialEq, Eq)]
pub struct PublicKey {
    bytes: [u8; 32],
}

impl View for PublicKey {
    type V = Seq<u8>;

    closed spec fn view(&self) -> Seq<u8> {
        self.bytes@
    }
}

impl PublicKey {
    /// The key is a valid curve point.
    pub closed spec fn valid(&self) -> bool {
        ed25519_key_valid_spec(self.bytes@)
    }

    /// The wallet address of the key: RIPEMD-160 of the key's SHA-256.
    pub fn to_address(&self) -> (r: Address)
        ensures
            r@ == address_of_key(self@),
    {
        let digest = sha256(&self.bytes);
        let addr = ripemd160(&digest);
        Address::from_bytes(addr)
    }

    /// Checks a signature of `message`; `SignatureVerificationFailed` where
    /// it does not verify.
    pub fn verify(&self, message: &[u8], signature: &Signature) -> (r: Result<(), CryptoError>)
        ensures
            r is Ok <==> ed25519_verify_spec(self@, message@, signature@),
            r is Err ==> r == Err::<(), CryptoError>(CryptoError::SignatureVerificationFailed),
    {
        if ed25519_verify(&self.bytes, message, signature.array()) {
            Ok(())
        } else {
            Err(CryptoError::SignatureVerificationFailed)
        }
    }

    /// The 32 bytes of the key.
    pub fn as_bytes(&self) -> (r: &[u8; 32])
        ensures
            r@ == self@,
    {
        &self.bytes
    }

    /// The key with these bytes; `InvalidPublicKey` where they are no
    /// valid key.
    pub fn from_bytes(bytes: &[u8; 32]) -> (r: Result<Self, CryptoError>)
        ensures
            ed25519_key_valid_spec(bytes@) ==> (r matches Ok(k) && k@ == bytes@ && k.valid()),
            !ed25519_key_valid_spec(bytes@) ==> r == Err::<PublicKey, CryptoError>(
                CryptoError::InvalidPublicKey,
            ),
    {
        if ed25519_key_valid(bytes) {
            Ok(PublicKey { bytes: *bytes })
        } else {
            Err(CryptoError::InvalidPublicKey)
        }
    }
}

/// An Ed25519 private key (32 bytes).
pub struct PrivateKey {
    bytes: [u8; 32],
}

impl View for PrivateKey {
    type V = Seq<u8>;

    closed spec fn view(&self) -> Seq<u8> {
        self.bytes@
    }
}

impl PrivateKey {
    /// The public key of this private key.
    pub fn public_key(&self) -> (r: PublicKey)
        ensures
            r@ == ed25519_public_spec(self@),
            r.valid(),
    {
        PublicKey { bytes: ed25519_public(&self.bytes) }
    }

    /// Signs a message.
    pub fn sign(&self, message: &[u8]) -> (r: Signature)
        ensures
            r@ == ed25519_sign_spec(self@, message@),
            ed25519_verify_spec(ed25519_public_spec(self@), message@, r@),
    {
        Signature::from_array(ed25519_sign(&self.bytes, message))
    }

    /// The raw bytes of the key (for export and storage only).
    pub fn as_bytes(&self) -> (r: &[u8; 32])
        ensures
            r@ == self@,
    {
        &self.bytes
    }

    /// The key with these bytes (any 32 bytes are a private key).
    pub fn from_bytes(bytes: &[u8; 32]) -> (r: Self)
        ensures
            r@ == bytes@,
    {
        PrivateKey { bytes: *bytes }
    }

    /// The key, for display: its bytes are never shown.
    pub fn redacted(&self) -> (r: &'static str)
        ensures
            r@ == "PrivateKey(***)"@,
    {
        "PrivateKey(***)"
    }
}

/// A private key with its public key.
pub struct Keypair {
    /// The private key.
    pub private: PrivateKey,
    /// The public key.
    pub public: PublicKey,
}

impl Keypair {
    /// The public key is the one the private key derives.
    pub open spec fn matched(&self) -> bool {
        self.public@ == ed25519_public_spec(self.private@)
    }

    /// A new key pair from the operating system's secure random source.
    pub fn generate() -> (r: Self)
        ensures
            r.matched(),
            r.public.valid(),
    {
        let bytes = os_random_32();
        let private = PrivateKey::from_bytes(&bytes);
        let public = private.public_key();
        Keypair { private, public }
    }

    /// The wallet address of the pair's public key.
    pub fn address(&self) -> (r: Address)
        ensures
            r@ == address_of_key(self.public@),
    {
        self.public.to_address()
    }

    /// Signs a message with the private key; in a matched pair the
    /// signature verifies under the public key.
    pub fn sign(&self, message: &[u8]) -> (r: Signature)
        ensures
            r@ == ed25519_sign_spec(self.private@, message@),
            self.matched() ==> ed25519_verify_spec(self.public@, message@, r@),
    {
        self.private.sign(message)
    }
}

} // verus!
