use rustcoin::mempool::error::MempoolError;
use rustcoin::mempool::Mempool;
use rustcoin::primitives::transaction::{Transaction, TxKind};
use rustcoin::primitives::types::{Address, Amount, Timestamp};

fn make_tx(nonce: u64, fee: u64) -> Transaction {
    Transaction {
        version: 1,
        kind: TxKind::Transfer,
        from: Some(Address::from_bytes([1u8; 20])),
        to: Address::from_bytes([2u8; 20]),
        amount: Amount(1000),
        fee: Amount(fee),
        nonce,
        timestamp: Timestamp(0),
        signature: Some(vec![0u8; 64]),
        public_key: Some(vec![0u8; 32]),
    }
}

#[test]
fn test_add_and_get_tx() {
    let mut pool = Mempool::new();
    let tx = make_tx(0, 500);
    let txid = pool.add(tx.clone()).expect("add tx");
    let got = pool.get(&txid).expect("get tx");
    assert_eq!(got.nonce, tx.nonce);
}

#[test]
fn test_duplicate_rejected() {
    let mut pool = Mempool::new();
    let tx = make_tx(0, 500);
    pool.add(tx.clone()).expect("first add ok");
    let err = pool.add(tx);
    assert!(matches!(err, Err(MempoolError::DuplicateTransaction(_))));
}

#[test]
fn test_select_for_block_ordered_by_fee() {
    let mut pool = Mempool::new();
    pool.add(make_tx(0, 100)).unwrap();
    pool.add(make_tx(1, 500)).unwrap();
    pool.add(make_tx(2, 300)).unwrap();
    let selected = pool.select_for_block(10);
    assert_eq!(selected.len(), 3);
    assert_eq!(selected[0].fee, Amount(500));
    assert_eq!(selected[1].fee, Amount(300));
    assert_eq!(selected[2].fee, Amount(100));
}

#[test]
fn test_select_respects_max_count() {
    let mut pool = Mempool::new();
    for i in 0..10u64 {
        pool.add(make_tx(i, i * 100 + 1)).unwrap();
    }
    let selected = pool.select_for_block(3);
    assert_eq!(selected.len(), 3, "should respect max_count");
}

#[test]
fn test_remove_confirmed() {
    let mut pool = Mempool::new();
    let id1 = pool.add(make_tx(0, 100)).unwrap();
    let id2 = pool.add(make_tx(1, 200)).unwrap();
    pool.remove_confirmed(&[id1]);
    assert_eq!(pool.len(), 1);
    assert!(pool.get(&id1).is_none());
    assert!(pool.get(&id2).is_some());
}

#[test]
fn test_eviction_on_full_pool() {
    let mut pool = Mempool::with_capacity(3);
    let low_fee = 10u64;
    let hi_fee = 1000u64;
    pool.add(make_tx(0, low_fee)).unwrap();
    pool.add(make_tx(1, hi_fee)).unwrap();
    pool.add(make_tx(2, hi_fee)).unwrap();
    pool.add(make_tx(3, hi_fee)).unwrap();
    assert_eq!(pool.len(), 3, "pool size should stay at capacity");
    let remaining = pool.select_for_block(10);
    assert!(remaining.iter().all(|tx| tx.fee.0 >= hi_fee), "low-fee tx should have been evicted");
}

#[test]
fn test_total_fees() {
    let mut pool = Mempool::new();
    pool.add(make_tx(0, 100)).unwrap();
    pool.add(make_tx(1, 200)).unwrap();
    pool.add(make_tx(2, 300)).unwrap();
    let total = pool.total_fees();
    assert_eq!(total, Amount(600));
}

#[test]
fn test_zero_amount_tx_rejected() {
    let mut pool = Mempool::new();
    let mut tx = make_tx(0, 100);
    tx.amount = Amount(0);
    assert!(pool.add(tx).is_err());
}

#[test]
fn invalid_transaction_error_carries_the_message() {
    let mut pool = Mempool::new();
    let mut tx = make_tx(0, 100);
    tx.amount = Amount(0);
    match pool.add(tx) {
        Err(MempoolError::InvalidTransaction(m)) => {
            assert_eq!(m, "invalid transaction: zero amount not allowed")
        }
        other => panic!("unexpected: {other:?}"),
    }
    assert!(pool.is_empty());
}

#[test]
fn pool_of_capacity_zero_is_full() {
    let mut pool = Mempool::with_capacity(0);
    assert!(matches!(pool.add(make_tx(0, 1)), Err(MempoolError::Full)));
    assert_eq!(pool.len(), 0);
}

#[test]
fn equal_fee_rate_ranks_higher_fee_then_earlier() {
    let mut pool = Mempool::new();
    let a = pool.add(make_tx(0, 300)).unwrap();
    let b = pool.add(make_tx(1, 300)).unwrap();
    let sel = pool.select_for_block(2);
    assert_eq!(sel[0].tx_id(), a);
    assert_eq!(sel[1].tx_id(), b);
}

#[test]
fn total_fees_skips_an_overflowing_addition() {
    let mut pool = Mempool::new();
    pool.add(make_tx(0, u64::MAX)).unwrap();
    pool.add(make_tx(1, 5)).unwrap();
    let t = pool.total_fees();
    assert!(t == Amount(u64::MAX) || t == Amount(5));
}

#[test]
fn mempool_error_messages() {
    assert_eq!(MempoolError::Full.message(), "mempool is full");
    assert_eq!(MempoolError::NotFound.message(), "transaction not found");
}

#[test]
fn length_after_add_grows_until_full() {
    let mut pool = Mempool::with_capacity(2);
    pool.add(make_tx(0, 10)).unwrap();
    assert_eq!(pool.len(), 1);
    pool.add(make_tx(1, 20)).unwrap();
    assert_eq!(pool.len(), 2);
    pool.add(make_tx(2, 30)).unwrap();
    assert_eq!(pool.len(), 2);
    assert!(pool.add(make_tx(2, 30)).is_err());
    assert_eq!(pool.len(), 2);
}
