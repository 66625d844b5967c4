use rustcoin::primitives::error::PrimitivesError;
use rustcoin::primitives::error::HexError;
use rustcoin::primitives::block::Block;
use rustcoin::primitives::hash;
use rustcoin::primitives::transaction::{Transaction, TxKind};
use rustcoin::primitives::types::{saturating_millis, Address, Amount, Nonce, Timestamp};

fn make_tx(amount: u64) -> Transaction {
    Transaction {
        version: 1,
        kind: TxKind::Transfer,
        from: Some(Address::from_bytes([1u8; 20])),
        to: Address::from_bytes([2u8; 20]),
        amount: Amount(amount),
        fee: Amount(1000),
        nonce: 0,
        timestamp: Timestamp(0),
        signature: Some(vec![0u8; 64]),
        public_key: Some(vec![0u8; 32]),
    }
}

#[test]
fn test_hash_sha256_deterministic() {
    let h1 = hash::Hash::sha256(b"hello world");
    let h2 = hash::Hash::sha256(b"hello world");
    assert_eq!(h1, h2, "same input must produce same hash");
}

#[test]
fn test_hash_different_inputs_differ() {
    let h1 = hash::Hash::sha256(b"foo");
    let h2 = hash::Hash::sha256(b"bar");
    assert_ne!(h1, h2);
}

#[test]
fn test_hash_hex_roundtrip() {
    let h0 = hash::Hash::sha256(b"test");
    let hex = h0.to_hex();
    let decoded = hash::Hash::from_hex(&hex).expect("valid hex");
    assert_eq!(h0, decoded);
}

#[test]
fn test_hash_meets_difficulty() {
    assert!(hash::Hash::zero().meets_difficulty(0), "difficulty 0 always passes");
    assert!(hash::Hash::zero().meets_difficulty(32), "ZERO meets any difficulty");
    assert!(hash::Hash::zero().meets_difficulty(64), "ZERO meets high difficulty");
}

#[test]
fn test_address_base58_roundtrip() {
    let bytes = [1u8; 20];
    let addr = Address::from_bytes(bytes);
    let encoded = addr.to_base58();
    let decoded = Address::from_base58(&encoded).expect("valid base58");
    assert_eq!(addr, decoded);
}

#[test]
fn test_address_zero_is_distinct() {
    let zero = Address::zero();
    let other = Address::from_bytes([1u8; 20]);
    assert_ne!(zero, other);
}

#[test]
fn test_address_invalid_base58_fails() {
    let result = Address::from_base58("not_a_valid_address!!!");
    assert!(result.is_err());
}

#[test]
fn test_amount_checked_add_overflow() {
    let max = Amount(u64::MAX);
    let one = Amount(1);
    let result = max.checked_add(one);
    assert!(result.is_none(), "overflow must return None");
}

#[test]
fn test_amount_checked_sub_underflow() {
    let small = Amount(5);
    let large = Amount(10);
    let result = small.checked_sub(large);
    assert!(result.is_none(), "underflow must return None");
}

#[test]
fn test_amount_one_rsc() {
    assert_eq!(Amount::one().0, 100_000_000);
}

#[test]
fn test_tx_id_deterministic() {
    let tx = make_tx(1000);
    let id1 = tx.tx_id();
    let id2 = tx.tx_id();
    assert_eq!(id1, id2);
}

#[test]
fn test_tx_id_differs_with_different_amount() {
    let tx1 = make_tx(1000);
    let tx2 = make_tx(2000);
    assert_ne!(tx1.tx_id(), tx2.tx_id());
}

#[test]
fn test_coinbase_validate_basic_ok() {
    let coinbase = Transaction {
        version: 1,
        kind: TxKind::Coinbase,
        from: None,
        to: Address::from_bytes([9u8; 20]),
        amount: Amount(50 * 100_000_000),
        fee: Amount(0),
        nonce: 0,
        timestamp: Timestamp(0),
        signature: None,
        public_key: None,
    };
    assert!(coinbase.validate_basic().is_ok());
}

#[test]
fn test_zero_amount_transfer_rejected() {
    let mut tx = make_tx(0);
    tx.amount = Amount(0);
    assert!(tx.validate_basic().is_err());
}

#[test]
fn test_merkle_root_empty() {
    let root = Block::compute_merkle_root(&[]);
    assert_eq!(root, hash::Hash::zero());
}

#[test]
fn test_merkle_root_single_tx() {
    let txs = vec![make_tx(1000)];
    let root = Block::compute_merkle_root(&txs);
    assert_eq!(root, txs[0].tx_id(), "single tx: root = tx hash");
}

#[test]
fn test_merkle_root_changes_with_tx() {
    let txs1 = vec![make_tx(1000)];
    let txs2 = vec![make_tx(2000)];
    assert_ne!(Block::compute_merkle_root(&txs1), Block::compute_merkle_root(&txs2));
}

#[test]
fn test_merkle_root_odd_number_of_txs() {
    let txs = vec![make_tx(1), make_tx(2), make_tx(3)];
    let root = Block::compute_merkle_root(&txs);
    assert_ne!(root, hash::Hash::zero());
}

#[test]
fn test_genesis_block() {
    let genesis = Block::genesis();
    assert_eq!(genesis.height().0, 0);
    assert_eq!(genesis.previous_hash(), hash::Hash::zero());
}

#[test]
fn amount_add_commutative_examples() {
    for (a, b) in [(0u64, 0u64), (1, 999_999), (123_456, 654_321), (999_999, 999_999)] {
        assert_eq!(Amount(a).checked_add(Amount(b)), Amount(b).checked_add(Amount(a)));
    }
}

#[test]
fn hash_hex_roundtrip_examples() {
    for data in [&b""[..], &b"a"[..], &[0u8, 255, 16, 1][..]] {
        let h = hash::Hash::sha256(data);
        assert_eq!(hash::Hash::from_hex(&h.to_hex()).unwrap(), h);
    }
}

#[test]
fn hex_of_zero_hash_is_64_zeros() {
    assert_eq!(hash::Hash::zero().to_hex(), "0".repeat(64));
}

#[test]
fn hash_from_hex_rejects_odd_and_short_text() {
    assert_eq!(hash::Hash::from_hex("abc"), Err(HexError::OddLength));
    assert_eq!(hash::Hash::from_hex("abcd"), Err(HexError::InvalidStringLength));
    assert_eq!(
        hash::Hash::from_hex("zz"),
        Err(HexError::InvalidHexCharacter { c: 'z', index: 0 })
    );
}

#[test]
fn sha256_of_empty_input_is_the_known_digest() {
    assert_eq!(
        hash::Hash::sha256(b"").to_hex(),
        "e3b0c44298fc1c149afbf4c8996fb92427ae41e4649b934ca495991b7852b855"
    );
}

#[test]
fn nonce_increment_wraps() {
    let mut n = Nonce(u64::MAX);
    n.increment();
    assert_eq!(n, Nonce(0));
    let mut m = Nonce(7);
    m.increment();
    assert_eq!(m, Nonce(8));
}

#[test]
fn transfer_without_sender_is_rejected_with_message() {
    let mut tx = make_tx(10);
    tx.from = None;
    let e = tx.validate_basic().unwrap_err();
    assert_eq!(e, PrimitivesError::InvalidTransaction("missing sender".to_string()));
    assert_eq!(e.message(), "invalid transaction: missing sender");
}

#[test]
fn genesis_json_text() {
    let g = Block::genesis();
    let text = String::from_utf8(g.to_json()).unwrap();
    let v: serde_json::Value = serde_json::from_str(&text).unwrap();
    assert_eq!(v["header"]["height"], 0);
    assert_eq!(v["header"]["bits"], 20);
    assert_eq!(v["transactions"].as_array().unwrap().len(), 0);
    assert_eq!(g.size_bytes(), text.len());
}

#[test]
fn block_structure_checks() {
    let mut b = Block::genesis();
    b.header.merkle_root = hash::Hash::sha256(b"x");
    assert_eq!(b.validate_structure(), Err(PrimitivesError::InvalidMerkleRoot));
}

#[test]
fn zero_address_base58_text() {
    assert_eq!(Address::zero().to_base58(), "1111111111111111111114oLvT2");
}

fn json_array(bytes: &[u8]) -> String {
    let items: Vec<String> = bytes.iter().map(|b| b.to_string()).collect();
    format!("[{}]", items.join(","))
}

#[test]
fn transaction_json_text_is_serde_layout() {
    let tx = make_tx(1000);
    let expected = format!(
        "{{\"version\":1,\"kind\":\"Transfer\",\"from\":{},\"to\":{},\"amount\":1000,\"fee\":1000,\"nonce\":0,\"timestamp\":0,\"signature\":{},\"public_key\":{}}}",
        json_array(&[1u8; 20]),
        json_array(&[2u8; 20]),
        json_array(&[0u8; 64]),
        json_array(&[0u8; 32]),
    );
    assert_eq!(String::from_utf8(tx.to_json()).unwrap(), expected);
    let call = Transaction {
        kind: TxKind::ContractCall {
            contract: Address::from_bytes([3u8; 20]),
            method: "go\n".to_string(),
            args: vec![7],
            gas_limit: 5,
        },
        from: None,
        signature: None,
        public_key: None,
        ..make_tx(1)
    };
    let text = String::from_utf8(call.to_json()).unwrap();
    assert!(text.contains(&format!(
        "\"kind\":{{\"ContractCall\":{{\"contract\":{},\"method\":\"go\\n\",\"args\":[7],\"gas_limit\":5}}}}",
        json_array(&[3u8; 20])
    )));
    assert!(text.contains("\"from\":null"));
    assert!(text.ends_with("\"signature\":null,\"public_key\":null}"));
}

#[test]
fn hash_debug_text_shows_both_ends() {
    assert_eq!(hash::Hash::zero().debug_text(), "Hash(00000000...00000000)");
    let h = hash::Hash::from_bytes([0xab; 32]);
    assert_eq!(h.debug_text(), "Hash(abababab...abababab)");
}

#[test]
fn zero_hash_meets_difficulty_past_its_bits() {
    let z = hash::Hash::zero();
    assert!(z.meets_difficulty(256));
    assert!(z.meets_difficulty(263));
    assert!(z.meets_difficulty(264));
    assert!(z.meets_difficulty(u32::MAX));
    let mut last = [0u8; 32];
    last[31] = 1;
    let h = hash::Hash::from_bytes(last);
    assert!(h.meets_difficulty(255));
    assert!(!h.meets_difficulty(256));
    assert!(!h.meets_difficulty(u32::MAX));
}

#[test]
fn genesis_hash_field_is_its_header_hash() {
    let g = Block::genesis();
    assert_eq!(g.header.hash, Some(g.hash()));
    assert_ne!(g.hash(), hash::Hash::zero());
    let text = String::from_utf8(g.to_json()).unwrap();
    let v: serde_json::Value = serde_json::from_str(&text).unwrap();
    let stored: Vec<u8> = v["header"]["hash"]
        .as_array()
        .unwrap()
        .iter()
        .map(|b| b.as_u64().unwrap() as u8)
        .collect();
    assert_eq!(stored, g.hash().as_bytes().to_vec());
}

#[test]
fn milliseconds_saturate_at_64_bits() {
    assert_eq!(saturating_millis(0), 0);
    assert_eq!(saturating_millis(1_700_000_000_000), 1_700_000_000_000);
    assert_eq!(saturating_millis(u64::MAX as u128), u64::MAX);
    assert_eq!(saturating_millis(u64::MAX as u128 + 1), u64::MAX);
    assert!(Timestamp::now().0 > 1_600_000_000_000);
}
