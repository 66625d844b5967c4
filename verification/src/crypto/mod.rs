//! Ed25519 keys and signatures, and the address of a public key.
pub mod error;
pub mod keypair;
pub mod signature;
