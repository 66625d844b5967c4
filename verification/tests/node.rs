use rustcoin::cli::commands::{chain_lines, start_config, tx_line, ChainCmd, TxCmd};
use rustcoin::cli::text::dec_string;
use rustcoin::mempool::Mempool;
use rustcoin::node::config::{MiningConfig, NodeConfig};
use rustcoin::node::error::NodeError;
use rustcoin::node::events::{
    genesis_to_apply, mining_coinbase, next_mining_job, on_block_mined, on_block_received,
    on_transaction_received, restore_chain_state, NodeEvent,
};
use rustcoin::node::state::{ChainState, ChainTip};
use rustcoin::primitives::block::Block;
use rustcoin::primitives::hash;
use rustcoin::primitives::transaction::{Transaction, TxKind};
use rustcoin::primitives::types::{Address, Amount, BlockHeight, Timestamp};

fn make_tx(nonce: u64, fee: u64) -> Transaction {
    Transaction {
        version: 1,
        kind: TxKind::Transfer,
        from: Some(Address::from_bytes([1u8; 20])),
        to: Address::from_bytes([2u8; 20]),
        amount: Amount(1000),
        fee: Amount(fee),
        nonce,
        timestamp: Timestamp(0),
        signature: Some(vec![0u8; 64]),
        public_key: Some(vec![0u8; 32]),
    }
}

#[test]
fn default_config_and_paths() {
    let c = NodeConfig::default();
    assert_eq!(c.data_dir, "./data");
    assert_eq!(c.network, "devnet");
    assert_eq!(c.p2p.port, 8333);
    assert_eq!(c.rpc.port, 8545);
    assert_eq!(c.rpc.host, "0.0.0.0");
    assert!(c.mining.is_none());
    assert_eq!(c.db_path(), "./data/db");
    assert_eq!(c.keystore_path(), "./data/keystore.json");
}

#[test]
fn path_join_keeps_a_single_separator() {
    let mut c = NodeConfig::default();
    c.data_dir = "/var/lib/node/".to_string();
    assert_eq!(c.db_path(), "/var/lib/node/db");
    c.data_dir = String::new();
    assert_eq!(c.keystore_path(), "keystore.json");
}

#[test]
fn chain_state_tip_and_syncing() {
    let mut s = ChainState::new(3);
    assert_eq!(s.tip(), ChainTip::default());
    assert!(!s.is_syncing());
    s.update_tip(hash::Hash::sha256(b"t"), BlockHeight(9));
    assert_eq!(s.tip().height, BlockHeight(9));
    s.set_syncing(true);
    assert!(s.is_syncing());
    assert_eq!(s.network_version, 3);
}

#[test]
fn restore_uses_the_stored_tip() {
    let h = hash::Hash::sha256(b"tip");
    let s = restore_chain_state(Some((h, BlockHeight(12))));
    assert_eq!(s.tip(), ChainTip { hash: h, height: BlockHeight(12) });
    let z = restore_chain_state(None);
    assert_eq!(z.tip(), ChainTip::default());
}

#[test]
fn genesis_only_where_missing() {
    assert!(genesis_to_apply(true).is_none());
    let g = genesis_to_apply(false).unwrap();
    assert_eq!(g.height(), BlockHeight(0));
}

#[test]
fn mining_job_is_one_above_the_tip() {
    let tip = ChainTip { hash: hash::Hash::sha256(b"p"), height: BlockHeight(4) };
    assert_eq!(next_mining_job(&tip), Some((tip.hash, BlockHeight(5))));
    let top = ChainTip { hash: hash::Hash::zero(), height: BlockHeight(u64::MAX) };
    assert_eq!(next_mining_job(&top), None);
}

#[test]
fn mined_block_clears_its_transactions_and_moves_the_tip() {
    let mut pool = Mempool::new();
    let t1 = make_tx(0, 10);
    let t2 = make_tx(1, 20);
    pool.add(t1.clone()).unwrap();
    let keep = pool.add(t2).unwrap();
    let mut block = Block::genesis();
    block.header.height = BlockHeight(1);
    block.transactions.push(t1);
    let mut state = ChainState::new(1);
    let ev = on_block_mined(&mut state, &mut pool, block);
    assert_eq!(pool.len(), 1);
    assert!(pool.get(&keep).is_some());
    assert_eq!(state.tip().height, BlockHeight(1));
    assert!(matches!(ev, NodeEvent::NewBlock(_)));
}

#[test]
fn incoming_block_moves_the_tip_only_upwards() {
    let mut state = ChainState::new(1);
    state.update_tip(hash::Hash::zero(), BlockHeight(5));
    let mut low = Block::genesis();
    low.header.height = BlockHeight(5);
    assert!(on_block_received(&mut state, low).is_none());
    assert_eq!(state.tip().height, BlockHeight(5));
    let mut high = Block::genesis();
    high.header.height = BlockHeight(6);
    let h = high.hash();
    assert!(on_block_received(&mut state, high).is_some());
    assert_eq!(state.tip(), ChainTip { hash: h, height: BlockHeight(6) });
}

#[test]
fn incoming_transaction_is_announced_once() {
    let mut pool = Mempool::new();
    let tx = make_tx(0, 10);
    let id = tx.tx_id();
    match on_transaction_received(&mut pool, tx.clone()) {
        Some(NodeEvent::NewTransaction(got)) => assert_eq!(got, id),
        other => panic!("unexpected: {other:?}"),
    }
    assert!(on_transaction_received(&mut pool, tx).is_none());
}

#[test]
fn coinbase_address_must_decode() {
    let a = Address::from_bytes([3u8; 20]);
    let good = MiningConfig { coinbase_address: a.to_base58(), threads: 0 };
    assert_eq!(mining_coinbase(&good).unwrap(), a);
    let bad = MiningConfig { coinbase_address: "nope!".to_string(), threads: 0 };
    match mining_coinbase(&bad) {
        Err(NodeError::Init(m)) => assert_eq!(m, "invalid coinbase address"),
        other => panic!("unexpected: {other:?}"),
    }
    assert_eq!(NodeError::Storage("s".to_string()).message(), "storage error: s");
}

#[test]
fn start_options_override_the_config() {
    let c = start_config(
        NodeConfig::default(),
        true,
        Some("addr".to_string()),
        1,
        2,
        "127.0.0.1".to_string(),
        vec!["/ip4/1.2.3.4/tcp/1".to_string()],
    )
    .unwrap();
    assert_eq!(c.p2p.port, 1);
    assert_eq!(c.rpc.port, 2);
    assert_eq!(c.rpc.host, "127.0.0.1");
    assert_eq!(c.p2p.bootstrap_peers.len(), 1);
    assert_eq!(c.mining.unwrap().coinbase_address, "addr");
    let e = start_config(NodeConfig::default(), true, None, 1, 2, String::new(), vec![]);
    assert_eq!(e.unwrap_err(), "--coinbase required when --mine is set");
}

#[test]
fn command_lines() {
    assert_eq!(
        chain_lines(&ChainCmd::Block { hash: None, height: Some(1000) }),
        vec!["Fetching block at height 1000 from http://127.0.0.1:8545/api/v1/blocks/height/1000".to_string()]
    );
    assert_eq!(
        chain_lines(&ChainCmd::Block { hash: None, height: None }),
        vec!["Provide --hash or --height".to_string()]
    );
    assert_eq!(chain_lines(&ChainCmd::Info).len(), 3);
    assert_eq!(
        tx_line(&TxCmd::Get { txid: "ab".to_string() }),
        "Fetching tx ab from http://127.0.0.1:8545/api/v1/tx/ab"
    );
    assert_eq!(tx_line(&TxCmd::Pending), "Fetching mempool from http://127.0.0.1:8545/api/v1/mempool");
    assert_eq!(dec_string(0), "0");
    assert_eq!(dec_string(u64::MAX), u64::MAX.to_string());
}

#[test]
fn incoming_transaction_evicts_the_cheapest_from_a_full_pool() {
    let mut pool = Mempool::with_capacity(2);
    let cheap = make_tx(0, 10);
    let dear = make_tx(1, 500);
    let cheap_id = cheap.tx_id();
    let dear_id = dear.tx_id();
    assert!(on_transaction_received(&mut pool, cheap).is_some());
    assert!(on_transaction_received(&mut pool, dear).is_some());
    let third = make_tx(2, 300);
    let third_id = third.tx_id();
    assert!(on_transaction_received(&mut pool, third).is_some());
    assert_eq!(pool.len(), 2);
    assert!(pool.get(&cheap_id).is_none());
    assert!(pool.get(&dear_id).is_some());
    assert!(pool.get(&third_id).is_some());
}
