use ripemd::Digest as _;
use rustcoin::crypto::error::CryptoError;
use rustcoin::crypto::keypair::{Keypair, PrivateKey, PublicKey};
use rustcoin::crypto::signature::Signature;
use rustcoin::primitives::types::Address;

#[test]
fn test_keypair_generate_unique() {
    let kp1 = Keypair::generate();
    let kp2 = Keypair::generate();
    assert_ne!(kp1.public.as_bytes(), kp2.public.as_bytes());
}

#[test]
fn test_address_from_keypair() {
    let kp = Keypair::generate();
    let addr = kp.address();
    assert_ne!(addr, Address::zero());
}

#[test]
fn test_same_keypair_same_address() {
    let kp = Keypair::generate();
    let addr1 = kp.address();
    let addr2 = kp.public.to_address();
    assert_eq!(addr1, addr2);
}

#[test]
fn test_sign_and_verify_ok() {
    let kp = Keypair::generate();
    let msg = b"transfer 100 RSC to Alice";
    let sig = kp.sign(msg);
    assert!(kp.public.verify(msg, &sig).is_ok());
}

#[test]
fn test_tampered_message_fails_verification() {
    let kp = Keypair::generate();
    let msg = b"transfer 100 RSC to Alice";
    let tampered = b"transfer 999 RSC to Alice";
    let sig = kp.sign(msg);
    assert!(kp.public.verify(tampered, &sig).is_err());
}

#[test]
fn test_wrong_key_fails_verification() {
    let kp1 = Keypair::generate();
    let kp2 = Keypair::generate();
    let msg = b"hello";
    let sig = kp1.sign(msg);
    assert!(kp2.public.verify(msg, &sig).is_err());
}

#[test]
fn test_signing_is_deterministic() {
    let kp = Keypair::generate();
    let msg = b"deterministic signing test";
    let sig1 = kp.sign(msg);
    let sig2 = kp.sign(msg);
    assert_eq!(sig1.as_bytes(), sig2.as_bytes());
}

#[test]
fn test_signature_from_bytes_roundtrip() {
    let kp = Keypair::generate();
    let msg = b"roundtrip test";
    let sig = kp.sign(msg);
    let bytes = sig.to_vec();
    let sig_back = Signature::from_bytes(&bytes).expect("valid sig bytes");
    assert!(kp.public.verify(msg, &sig_back).is_ok());
}

#[test]
fn test_invalid_signature_bytes_rejected() {
    let bad_bytes = vec![0u8; 32];
    assert!(Signature::from_bytes(&bad_bytes).is_err());
}

#[test]
fn test_public_key_from_bytes_roundtrip() {
    let kp = Keypair::generate();
    let bytes = kp.public.as_bytes();
    let pub_key = PublicKey::from_bytes(bytes).expect("valid pubkey");
    assert_eq!(kp.public.as_bytes(), pub_key.as_bytes());
}

// RFC 8032, section 7.1, test 1: the empty message.
const RFC_SECRET: &str = "9d61b19deffd5a60ba844af492ec2cc44449c5697b326919703bac031cae7f60";
const RFC_PUBLIC: &str = "d75a980182b10ab7d54bfed3c964073a0ee172f3daa62325af021a68f707511a";
const RFC_SIGNATURE: &str = "e5564300c360ac729086e2cc806e828a84877f1eb8e5d974d873e065224901555fb8821590a33bacc61e39701cf9b46bd25bf5f0595bbe24655141438e7a100b";

fn array32(hex_text: &str) -> [u8; 32] {
    let v = hex::decode(hex_text).unwrap();
    let mut a = [0u8; 32];
    a.copy_from_slice(&v);
    a
}

#[test]
fn rfc8032_public_key_and_signature() {
    let sk = PrivateKey::from_bytes(&array32(RFC_SECRET));
    assert_eq!(sk.public_key().as_bytes(), &array32(RFC_PUBLIC));
    let sig = sk.sign(b"");
    assert_eq!(hex::encode(sig.as_bytes()), RFC_SIGNATURE);
    assert!(sk.public_key().verify(b"", &sig).is_ok());
}

#[test]
fn signature_of_wrong_length_is_invalid_signature() {
    assert_eq!(Signature::from_bytes(&[1u8; 65]).unwrap_err(), CryptoError::InvalidSignature);
    assert!(Signature::from_bytes(&[1u8; 64]).is_ok());
}

#[test]
fn verify_failure_is_signature_verification_failed() {
    let kp = Keypair::generate();
    let sig = Signature::from_bytes(&[0u8; 64]).unwrap();
    assert_eq!(kp.public.verify(b"m", &sig).unwrap_err(), CryptoError::SignatureVerificationFailed);
    assert_eq!(CryptoError::SignatureVerificationFailed.message(), "signature verification failed");
}

#[test]
fn private_key_bytes_roundtrip() {
    let bytes = [7u8; 32];
    let sk = PrivateKey::from_bytes(&bytes);
    assert_eq!(sk.as_bytes(), &bytes);
    assert_eq!(sk.redacted(), "PrivateKey(***)");
}

#[test]
fn address_is_ripemd160_of_sha256_of_key() {
    let kp = Keypair::generate();
    let sha = sha2::Sha256::digest(kp.public.as_bytes());
    let rip = ripemd::Ripemd160::digest(sha);
    assert_eq!(kp.address().as_bytes().as_slice(), rip.as_slice());
}

#[test]
fn some_32_byte_strings_are_no_public_key() {
    assert!((0..=255u8).any(|b| PublicKey::from_bytes(&[b; 32]) == Err(CryptoError::InvalidPublicKey)));
    let kp = Keypair::generate();
    assert!(PublicKey::from_bytes(kp.public.as_bytes()).is_ok());
}
