use rustcoin::mempool::Mempool;
use rustcoin::p2p::error::P2pError;
use rustcoin::p2p::message::{subscribed_topics, NetworkMessage};
use rustcoin::p2p::network::{handle_swarm_input, NetworkConfig, NetworkEvent, SwarmAction, SwarmInput};
use rustcoin::primitives::block::Block;
use rustcoin::primitives::hash;
use rustcoin::primitives::transaction::{Transaction, TxKind};
use rustcoin::primitives::types::{Address, Amount, BlockHeight, Timestamp};
use rustcoin::rpc::dispatch::{
    lookup_status, method_not_found, route_method, submit_transaction, tx_send_bytes, RpcMethod,
};
use rustcoin::rpc::error::RpcError;
use rustcoin::storage::error::StorageError;
use rustcoin::token::contract::{
    allowance, allowance_key, approve, balance_key, balance_of, init, transfer, transfer_from,
};
use rustcoin::token::storage::ContractStorage;

fn make_tx(nonce: u64) -> Transaction {
    Transaction {
        version: 1,
        kind: TxKind::Transfer,
        from: Some(Address::from_bytes([1u8; 20])),
        to: Address::from_bytes([2u8; 20]),
        amount: Amount(1000),
        fee: Amount(10),
        nonce,
        timestamp: Timestamp(0),
        signature: Some(vec![0u8; 64]),
        public_key: Some(vec![0u8; 32]),
    }
}

#[test]
fn topics_of_messages() {
    assert_eq!(NetworkMessage::NewBlock(Box::new(Block::genesis())).topic(), "quench/blocks/1");
    assert_eq!(NetworkMessage::GetBlock { hash: hash::Hash::zero() }.topic(), "quench/blocks/1");
    assert_eq!(
        NetworkMessage::GetBlocks { start_height: BlockHeight(0), end_height: BlockHeight(1) }.topic(),
        "quench/blocks/1"
    );
    assert_eq!(NetworkMessage::Headers(vec![]).topic(), "quench/headers/1");
    assert_eq!(NetworkMessage::NewTransaction(Box::new(make_tx(0))).topic(), "quench/txs/1");
    assert_eq!(NetworkMessage::Ping { nonce: 1 }.topic(), "quench/control/1");
    assert_eq!(NetworkMessage::Inventory(vec![]).topic(), "quench/control/1");
    let subscribed = subscribed_topics();
    assert_eq!(subscribed, vec!["quench/blocks/1", "quench/txs/1", "quench/headers/1", "quench/control/1"]);
    assert!(subscribed.contains(&NetworkMessage::Pong { nonce: 2 }.topic()));
}

#[test]
fn swarm_events_become_node_events() {
    let a = handle_swarm_input(SwarmInput::ConnectionEstablished("p1".to_string()));
    assert!(matches!(&a[..], [SwarmAction::Report(NetworkEvent::PeerConnected(p))] if p.as_str() == "p1"));
    let b = handle_swarm_input(SwarmInput::Gossip {
        source: "p2".to_string(),
        message: Some(NetworkMessage::NewTransaction(Box::new(make_tx(3)))),
    });
    assert!(matches!(&b[..], [SwarmAction::Report(NetworkEvent::NewTransaction { from, .. })] if from.as_str() == "p2"));
    let c = handle_swarm_input(SwarmInput::Gossip { source: "p3".to_string(), message: Some(NetworkMessage::Ping { nonce: 1 }) });
    assert!(c.is_empty());
    let d = handle_swarm_input(SwarmInput::Discovered(vec![
        ("x".to_string(), "/ip4/1.1.1.1/tcp/1".to_string()),
        ("y".to_string(), "/ip4/2.2.2.2/tcp/2".to_string()),
    ]));
    assert_eq!(d.len(), 2);
    assert!(matches!(&d[1], SwarmAction::AddAndDial { peer, addr } if peer.as_str() == "y" && addr.as_str() == "/ip4/2.2.2.2/tcp/2"));
    assert!(handle_swarm_input(SwarmInput::Other).is_empty());
}

#[test]
fn network_config_default_and_errors() {
    let c = NetworkConfig::default();
    assert_eq!(c.listen_port, 8333);
    assert_eq!(c.max_peers, 50);
    assert_eq!(c.network_name, "quench-mainnet");
    assert_eq!(P2pError::InvalidAddr.message(), "invalid multiaddr");
    assert_eq!(P2pError::Codec("c".to_string()).message(), "encode/decode error: c");
}

#[test]
fn rpc_codes_and_messages() {
    assert_eq!(RpcError::MethodNotFound("m".to_string()).code(), -32601);
    assert_eq!(RpcError::InvalidParams("p".to_string()).code(), -32602);
    assert_eq!(RpcError::Internal("i".to_string()).code(), -32603);
    assert_eq!(RpcError::Bind("b".to_string()).code(), -32000);
    assert_eq!(RpcError::Serve("s".to_string()).code(), -32000);
    assert_eq!(method_not_found("foo").message(), "method not found: foo");
}

#[test]
fn rpc_routing_and_tx_send() {
    assert_eq!(route_method("chain_getInfo"), RpcMethod::ChainGetInfo);
    assert_eq!(route_method("mempool_getSize"), RpcMethod::MempoolGetSize);
    assert_eq!(route_method("tx_send"), RpcMethod::TxSend);
    assert_eq!(route_method("tx_sendx"), RpcMethod::Unknown);
    match tx_send_bytes(None) {
        Err(RpcError::InvalidParams(m)) => assert_eq!(m, "expected hex string"),
        other => panic!("unexpected: {other:?}"),
    }
    match tx_send_bytes(Some("xyz")) {
        Err(RpcError::InvalidParams(m)) => assert_eq!(m, "invalid hex"),
        other => panic!("unexpected: {other:?}"),
    }
    assert_eq!(tx_send_bytes(Some("0aff")).unwrap(), vec![10u8, 255]);
    let mut pool = Mempool::new();
    let tx = make_tx(0);
    let id = tx.tx_id();
    assert_eq!(submit_transaction(&mut pool, tx.clone()).unwrap(), id.to_hex());
    match submit_transaction(&mut pool, tx) {
        Err(RpcError::Internal(m)) => assert!(m.starts_with("duplicate transaction: ")),
        other => panic!("unexpected: {other:?}"),
    }
    assert_eq!(lookup_status(&Ok::<Option<u8>, StorageError>(Some(1))), 200);
    assert_eq!(lookup_status(&Ok::<Option<u8>, StorageError>(None)), 404);
    assert_eq!(lookup_status(&Err::<Option<u8>, StorageError>(StorageError::Overflow)), 500);
}

#[test]
fn token_keys() {
    assert_eq!(balance_key(&[1, 2]), b"balance:\x01\x02".to_vec());
    assert_eq!(allowance_key(b"o", b"s"), b"allowance:o:s".to_vec());
}

#[test]
fn token_init_transfer_and_allowances() {
    let owner = [1u8; 20];
    let alice = [2u8; 20];
    let bob = [3u8; 20];
    let mut s = ContractStorage::new();
    init(&mut s, &owner, 1_000, b"Quench", b"QNC");
    assert_eq!(balance_of(&s, &owner), 1_000);
    assert_eq!(transfer(&mut s, &owner, &alice, 300), 1);
    assert_eq!(balance_of(&s, &owner), 700);
    assert_eq!(balance_of(&s, &alice), 300);
    assert_eq!(transfer(&mut s, &alice, &bob, 301), 0, "more than the balance");
    assert_eq!(balance_of(&s, &alice), 300);
    assert_eq!(approve(&mut s, &alice, &bob, 100), 1);
    assert_eq!(allowance(&s, &alice, &bob), 100);
    assert_eq!(transfer_from(&mut s, &bob, &alice, &owner, 150), 0, "more than the allowance");
    assert_eq!(transfer_from(&mut s, &bob, &alice, &owner, 60), 1);
    assert_eq!(allowance(&s, &alice, &bob), 40);
    assert_eq!(balance_of(&s, &alice), 240);
    assert_eq!(balance_of(&s, &owner), 760);
    assert_eq!(balance_of(&s, &bob), 0);
}

#[test]
fn token_transfer_that_would_overflow_is_refused() {
    let a = [1u8; 20];
    let b = [2u8; 20];
    let mut s = ContractStorage::new();
    init(&mut s, &a, 10, b"T", b"T");
    s.storage_set(&balance_key(&b), &u64::MAX.to_le_bytes());
    assert_eq!(transfer(&mut s, &a, &b, 1), 0);
    assert_eq!(balance_of(&s, &a), 10);
}

#[test]
fn malformed_balance_reads_as_zero() {
    let a = [1u8; 20];
    let mut s = ContractStorage::new();
    s.storage_set(&balance_key(&a), &[1, 2, 3]);
    assert_eq!(balance_of(&s, &a), 0);
}

#[test]
fn submitted_transactions_are_refused_with_the_pool_message() {
    let mut pool = Mempool::with_capacity(1);
    let first = make_tx(0);
    let id = first.tx_id();
    submit_transaction(&mut pool, first.clone()).unwrap();
    match submit_transaction(&mut pool, first) {
        Err(RpcError::Internal(m)) => assert_eq!(m, format!("duplicate transaction: {}", id.to_hex())),
        other => panic!("unexpected: {other:?}"),
    }
    let mut bad = make_tx(1);
    bad.from = None;
    match submit_transaction(&mut pool, bad) {
        Err(RpcError::Internal(m)) => {
            assert_eq!(m, "invalid transaction: invalid transaction: missing sender")
        }
        other => panic!("unexpected: {other:?}"),
    }
    let second = make_tx(2);
    let id2 = second.tx_id();
    submit_transaction(&mut pool, second).unwrap();
    assert_eq!(pool.len(), 1);
    assert!(pool.get(&id).is_none());
    assert!(pool.get(&id2).is_some());
}
