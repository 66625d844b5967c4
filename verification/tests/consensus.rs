use rustcoin::consensus::difficulty::{
    compute_target, DifficultyAdjuster, ADJUSTMENT_INTERVAL, MIN_DIFFICULTY, TARGET_BLOCK_TIME_MS,
};
use rustcoin::consensus::error::ConsensusError;
use rustcoin::consensus::fork_choice::ForkChoice;
use rustcoin::consensus::miner::{block_reward_initial, Miner, HALVING_INTERVAL};
use rustcoin::primitives::block::Block;
use rustcoin::primitives::hash;
use rustcoin::primitives::transaction::TxKind;
use rustcoin::primitives::types::{Address, Amount, BlockHeight, Nonce, Timestamp};
use tokio_util::sync::CancellationToken;

#[test]
fn test_block_reward_halving() {
    assert_eq!(Miner::block_reward(BlockHeight(0)), block_reward_initial());
    let after_first = Miner::block_reward(BlockHeight(HALVING_INTERVAL));
    assert_eq!(after_first, Amount(block_reward_initial().0 / 2));
    let after_second = Miner::block_reward(BlockHeight(HALVING_INTERVAL * 2));
    assert_eq!(after_second, Amount(block_reward_initial().0 / 4));
    let zero = Miner::block_reward(BlockHeight(HALVING_INTERVAL * 65));
    assert_eq!(zero, Amount(0));
}

#[test]
fn test_difficulty_no_change_on_target() {
    let expected_ms = ADJUSTMENT_INTERVAL * TARGET_BLOCK_TIME_MS;
    let start = Timestamp(0);
    let end = Timestamp(expected_ms);
    let new_bits = compute_target(20, start, end);
    assert_eq!(new_bits, 20);
}

#[test]
fn test_difficulty_increases_if_too_fast() {
    let expected_ms = ADJUSTMENT_INTERVAL * TARGET_BLOCK_TIME_MS;
    let actual_ms = expected_ms / 2;
    let new_bits = compute_target(20, Timestamp(0), Timestamp(actual_ms));
    assert!(new_bits > 20, "faster blocks → higher difficulty, got {new_bits}");
}

#[test]
fn test_difficulty_decreases_if_too_slow() {
    let expected_ms = ADJUSTMENT_INTERVAL * TARGET_BLOCK_TIME_MS;
    let actual_ms = expected_ms * 2;
    let new_bits = compute_target(20, Timestamp(0), Timestamp(actual_ms));
    assert!(new_bits < 20, "slower blocks → lower difficulty, got {new_bits}");
}

#[test]
fn test_difficulty_clamped_to_min() {
    let new_bits = compute_target(20, Timestamp(0), Timestamp(u64::MAX / 2));
    assert!(new_bits >= MIN_DIFFICULTY);
}

#[test]
fn test_difficulty_clamped_to_4x() {
    let new_bits = compute_target(20, Timestamp(0), Timestamp(1));
    assert!(new_bits <= 20 * 4);
}

#[test]
fn test_fork_choice_selects_highest_work() {
    let mut fc = ForkChoice::new();
    let genesis = Block::genesis();
    let genesis_header = genesis.header.clone();
    fc.add_block(genesis_header);

    let mut header_a = Block::genesis().header;
    header_a.height = BlockHeight(1);
    header_a.bits = 20;
    let _hash_a = header_a.compute_hash();
    fc.add_block(header_a);

    let mut header_b = Block::genesis().header;
    header_b.height = BlockHeight(1);
    header_b.bits = 24;
    header_b.nonce = Nonce(999);
    let hash_b = header_b.compute_hash();
    let is_new_best = fc.add_block(header_b);

    assert!(is_new_best, "higher difficulty block should become best tip");
    assert_eq!(fc.best_tip().unwrap(), hash_b);
}

#[test]
fn test_fork_choice_ancestry() {
    let mut fc = ForkChoice::new();
    let genesis = Block::genesis();
    let genesis_hash = genesis.hash();
    fc.add_block(genesis.header.clone());

    let mut h1 = genesis.header.clone();
    h1.height = BlockHeight(1);
    h1.previous_hash = genesis_hash;
    fc.add_block(h1.clone());

    let h1_hash = h1.compute_hash();
    let ancestry = fc.ancestry(h1_hash);

    assert_eq!(ancestry.len(), 2, "genesis + block 1");
    assert_eq!(ancestry[0], genesis_hash);
    assert_eq!(ancestry[1], h1_hash);
}

#[test]
fn test_mine_low_difficulty() {
    let miner = Miner::new(Address::from_bytes([9u8; 20]), CancellationToken::new());
    let result = miner.mine_sync(hash::Hash::zero(), BlockHeight(1), vec![], 1, 1).expect("mined");
    assert!(result.block.header.meets_difficulty());
    assert!(result.attempts > 0);
    assert_eq!(result.block.height().0, 1);
    assert!(matches!(result.block.transactions[0].kind, TxKind::Coinbase));
    assert_eq!(result.block.transactions[0].amount, block_reward_initial());
    assert!(result.block.validate_structure().is_ok());
}

#[test]
fn test_mining_cancellation() {
    let cancel = CancellationToken::new();
    let miner = Miner::new(Address::from_bytes([9u8; 20]), cancel.clone());
    cancel.cancel();
    let result = miner.mine_sync(hash::Hash::zero(), BlockHeight(1), vec![], 30, 1);
    assert!(matches!(result, Err(ConsensusError::MiningCancelled)));
}

#[test]
fn difficulty_adjuster_adjusts_only_at_interval() {
    let mut adj = DifficultyAdjuster::new(20);
    assert_eq!(adj.current_bits(), 20);
    assert_eq!(adj.on_new_block(BlockHeight(5), Timestamp(1000)), None);
    let r = adj.on_new_block(BlockHeight(ADJUSTMENT_INTERVAL), Timestamp(1));
    assert!(r.is_some());
    assert_eq!(adj.current_bits(), r.unwrap());
}

#[test]
fn fork_choice_rejects_duplicate_and_orphan_work() {
    let mut fc = ForkChoice::new();
    assert_eq!(fc.best_tip(), None);
    let g = Block::genesis();
    assert!(fc.add_block(g.header));
    assert!(!fc.add_block(g.header), "a known block is not a new best tip");
}

#[test]
fn consensus_error_messages() {
    assert_eq!(
        ConsensusError::MiningCancelled.message(),
        "mining was cancelled (new block received from network)"
    );
    assert_eq!(ConsensusError::UnknownParent("x".to_string()).message(), "unknown parent block: x");
}

#[test]
fn zero_bits_are_met_on_the_first_attempt() {
    let cancel = CancellationToken::new();
    cancel.cancel();
    let miner = Miner::new(Address::from_bytes([9u8; 20]), cancel);
    let result = miner.mine_sync(hash::Hash::zero(), BlockHeight(3), vec![], 0, 1).expect("mined");
    assert_eq!(result.attempts, 1);
    assert_eq!(result.block.header.nonce, Nonce(0));
    assert_eq!(result.block.header.hash, Some(result.block.hash()));
}
