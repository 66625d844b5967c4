use std::collections::HashMap;

use rustcoin::primitives::block::{Block, BlockHeader};
use rustcoin::primitives::hash;
use rustcoin::primitives::transaction::{Transaction, TxKind};
use rustcoin::primitives::types::{Address, Amount, BlockHeight, Nonce, Timestamp};
use rustcoin::storage::account::AccountState;
use rustcoin::storage::error::StorageError;
use rustcoin::storage::keys::{be_decode, Keys};
use rustcoin::storage::state_machine::{
    apply_block, decode_best_tip, hash_from_index, put_block_batch, ApplyResult, BlockStep, Column,
};

/// A store in memory, keyed by column family name and key.
struct MemDb {
    kv: HashMap<(String, Vec<u8>), Vec<u8>>,
    reads: usize,
}

impl MemDb {
    fn new() -> Self {
        MemDb { kv: HashMap::new(), reads: 0 }
    }

    fn put(&mut self, column: Column, key: Vec<u8>, value: Vec<u8>) {
        self.kv.insert((column.name().to_string(), key), value);
    }

    fn get(&self, column: Column, key: &[u8]) -> Option<Vec<u8>> {
        self.kv.get(&(column.name().to_string(), key.to_vec())).cloned()
    }

    fn get_account(&mut self, address: &Address) -> Result<AccountState, StorageError> {
        self.reads += 1;
        match self.get(Column::State, address.as_bytes()) {
            None => Ok(AccountState::default()),
            Some(bytes) => {
                let v: serde_json::Value = serde_json::from_slice(&bytes)
                    .map_err(|e| StorageError::Serialization(e.to_string()))?;
                Ok(AccountState {
                    balance: Amount(v["balance"].as_u64().unwrap()),
                    nonce: v["nonce"].as_u64().unwrap(),
                    code_hash: v["code_hash"].as_str().map(|s| s.to_string()),
                    storage_root: v["storage_root"].as_str().map(|s| s.to_string()),
                })
            }
        }
    }

    fn put_account(&mut self, address: &Address, state: &AccountState) {
        self.put(Column::State, address.as_bytes().to_vec(), state.to_json());
    }

    fn apply_block(&mut self, block: &Block) -> Result<ApplyResult, StorageError> {
        let stored = self.get(Column::Blocks, &Keys::block(&block.hash())).is_some();
        let mut loaded: Vec<(Address, Result<AccountState, StorageError>)> = Vec::new();
        loop {
            match apply_block(block, stored, &loaded)? {
                BlockStep::NeedAccount(a) => {
                    let answer = self.get_account(&a);
                    loaded.push((a, answer));
                }
                BlockStep::Commit { result, batch } => {
                    for p in batch {
                        self.put(p.column, p.key, p.value);
                    }
                    return Ok(result);
                }
                BlockStep::AlreadyApplied(result) => return Ok(result),
            }
        }
    }

    fn get_best_tip(&self) -> Result<Option<(hash::Hash, BlockHeight)>, StorageError> {
        decode_best_tip(
            self.get(Column::Meta, b"best_tip_hash"),
            self.get(Column::Meta, b"best_tip_height"),
        )
    }
}

fn addr(seed: u8) -> Address {
    Address::from_bytes([seed; 20])
}

fn make_block_with_coinbase(
    prev_hash: hash::Hash,
    height: BlockHeight,
    miner: Address,
    reward: Amount,
    extra_txs: Vec<Transaction>,
) -> Block {
    let coinbase = Transaction {
        version: 1,
        kind: TxKind::Coinbase,
        from: None,
        to: miner,
        amount: reward,
        fee: Amount(0),
        nonce: height.0,
        timestamp: Timestamp(0),
        signature: None,
        public_key: None,
    };
    let mut txs = vec![coinbase];
    txs.extend(extra_txs);
    let merkle = Block::compute_merkle_root(&txs);
    let mut header = BlockHeader {
        version: 1,
        previous_hash: prev_hash,
        merkle_root: merkle,
        timestamp: Timestamp(height.0),
        bits: u32::MAX,
        nonce: Nonce(0),
        height,
        hash: None,
    };
    let h = header.compute_hash();
    header.hash = Some(h);
    Block { header, transactions: txs }
}

fn transfer(from: Address, to: Address, amount: u64, fee: u64, nonce: u64) -> Transaction {
    Transaction {
        version: 1,
        kind: TxKind::Transfer,
        from: Some(from),
        to,
        amount: Amount(amount),
        fee: Amount(fee),
        nonce,
        timestamp: Timestamp(0),
        signature: Some(vec![0u8; 64]),
        public_key: Some(vec![0u8; 32]),
    }
}

#[test]
fn test_apply_genesis_ok() {
    let mut db = MemDb::new();
    let genesis = Block::genesis();
    let result = db.apply_block(&genesis).expect("apply genesis");
    assert_eq!(result.txs_applied, 0);
    assert_eq!(result.txs_skipped, 0);
    let (hash, height) = db.get_best_tip().unwrap().unwrap();
    assert_eq!(hash, genesis.hash());
    assert_eq!(height.0, 0);
}

#[test]
fn test_apply_block_idempotent() {
    let mut db = MemDb::new();
    let genesis = Block::genesis();
    db.apply_block(&genesis).expect("first apply");
    let result2 = db.apply_block(&genesis).expect("second apply — should be no-op");
    assert_eq!(result2.txs_applied, 0);
    assert_eq!(result2.txs_skipped, 0);
    let (hash, height) = db.get_best_tip().unwrap().unwrap();
    assert_eq!(hash, genesis.hash());
    assert_eq!(height.0, 0);
}

#[test]
fn test_coinbase_credits_miner() {
    let mut db = MemDb::new();
    let miner = addr(1);
    let reward = Amount(50 * 100_000_000);
    db.apply_block(&Block::genesis()).unwrap();
    let block = make_block_with_coinbase(Block::genesis().hash(), BlockHeight(1), miner, reward, vec![]);
    db.apply_block(&block).expect("apply block 1");
    let account = db.get_account(&miner).unwrap();
    assert_eq!(account.balance, reward, "miner must receive block reward");
}

#[test]
fn test_best_tip_persisted() {
    let mut db = MemDb::new();
    let miner = addr(2);
    db.apply_block(&Block::genesis()).unwrap();
    let block1 = make_block_with_coinbase(
        Block::genesis().hash(),
        BlockHeight(1),
        miner,
        Amount(5_000_000_000),
        vec![],
    );
    db.apply_block(&block1).unwrap();
    let (hash, height) = db.get_best_tip().unwrap().unwrap();
    assert_eq!(hash, block1.hash());
    assert_eq!(height.0, 1);
}

#[test]
fn test_transfer_updates_balances() {
    let mut db = MemDb::new();
    let from_addr = addr(10);
    let to_addr = addr(11);
    let miner = addr(99);
    let mut sender_state = AccountState::default();
    sender_state.credit(Amount(1_000_000)).unwrap();
    db.put_account(&from_addr, &sender_state);
    db.apply_block(&Block::genesis()).unwrap();
    let tx = transfer(from_addr, to_addr, 400_000, 100, 0);
    let block = make_block_with_coinbase(
        Block::genesis().hash(),
        BlockHeight(1),
        miner,
        Amount(5_000_000_000),
        vec![tx],
    );
    db.apply_block(&block).expect("apply block with transfer");
    let sender = db.get_account(&from_addr).unwrap();
    let recipient = db.get_account(&to_addr).unwrap();
    assert_eq!(sender.balance, Amount(1_000_000 - 400_000 - 100));
    assert_eq!(sender.nonce, 1, "nonce must increment after transfer");
    assert_eq!(recipient.balance, Amount(400_000));
}

#[test]
fn test_transfer_insufficient_balance_skipped() {
    let mut db = MemDb::new();
    let from_addr = addr(20);
    let to_addr = addr(21);
    let miner = addr(99);
    db.apply_block(&Block::genesis()).unwrap();
    let tx = transfer(from_addr, to_addr, 999_999, 100, 0);
    let block = make_block_with_coinbase(
        Block::genesis().hash(),
        BlockHeight(1),
        miner,
        Amount(5_000_000_000),
        vec![tx],
    );
    let result = db.apply_block(&block).unwrap();
    assert_eq!(result.txs_skipped, 1, "transfer must be skipped");
    assert_eq!(db.get_account(&to_addr).unwrap().balance, Amount(0));
}

#[test]
fn test_transfer_wrong_nonce_skipped() {
    let mut db = MemDb::new();
    let from_addr = addr(30);
    let to_addr = addr(31);
    let miner = addr(99);
    let mut sender_state = AccountState::default();
    sender_state.credit(Amount(1_000_000)).unwrap();
    db.put_account(&from_addr, &sender_state);
    db.apply_block(&Block::genesis()).unwrap();
    let tx = transfer(from_addr, to_addr, 100_000, 100, 5);
    let block = make_block_with_coinbase(
        Block::genesis().hash(),
        BlockHeight(1),
        miner,
        Amount(5_000_000_000),
        vec![tx],
    );
    let result = db.apply_block(&block).unwrap();
    assert_eq!(result.txs_skipped, 1, "wrong nonce must be skipped");
    assert_eq!(db.get_account(&from_addr).unwrap().balance, Amount(1_000_000), "balance unchanged");
}

#[test]
fn test_genesis_apply_and_best_tip() {
    let mut db = MemDb::new();
    let genesis = Block::genesis();
    db.apply_block(&genesis).expect("apply genesis");
    let (hash, height) = db.get_best_tip().unwrap().unwrap();
    assert_eq!(hash, genesis.hash());
    assert_eq!(height.0, 0);
}

#[test]
fn test_genesis_idempotent() {
    let mut db = MemDb::new();
    let genesis = Block::genesis();
    db.apply_block(&genesis).expect("first apply");
    db.apply_block(&genesis).expect("second apply — no-op");
    let (_, height) = db.get_best_tip().unwrap().unwrap();
    assert_eq!(height.0, 0);
}

#[test]
fn test_new_account_has_zero_balance() {
    let mut db = MemDb::new();
    let acc = db.get_account(&Address::from_bytes([42u8; 20])).expect("get account");
    assert_eq!(acc.balance, Amount(0));
    assert_eq!(acc.nonce, 0);
}

#[test]
fn test_update_account_balance() {
    let mut db = MemDb::new();
    let a = Address::from_bytes([7u8; 20]);
    let mut state = AccountState::default();
    state.credit(Amount(1_000_000)).expect("credit");
    db.put_account(&a, &state);
    let loaded = db.get_account(&a).expect("load account");
    assert_eq!(loaded.balance, Amount(1_000_000));
}

#[test]
fn test_account_debit_insufficient_returns_err() {
    let mut state = AccountState::default();
    state.balance = Amount(100);
    let result = state.debit(Amount(200));
    assert!(result.is_err(), "should fail on insufficient balance");
}

#[test]
fn test_account_nonce_increment() {
    let mut state = AccountState::default();
    assert_eq!(state.nonce, 0);
    state.increment_nonce();
    assert_eq!(state.nonce, 1);
    state.increment_nonce();
    assert_eq!(state.nonce, 2);
}

#[test]
fn credit_overflow_is_an_error_and_changes_nothing() {
    let mut state = AccountState::default();
    state.balance = Amount(u64::MAX);
    assert_eq!(state.credit(Amount(1)), Err(StorageError::Overflow));
    assert_eq!(state.balance, Amount(u64::MAX));
    assert_eq!(state.debit(Amount(5)), Ok(()));
    assert_eq!(state.balance, Amount(u64::MAX - 5));
}

#[test]
fn account_json_text() {
    let mut state = AccountState::default();
    state.balance = Amount(42);
    state.code_hash = Some("ab\"c".to_string());
    let text = String::from_utf8(state.to_json()).unwrap();
    assert_eq!(text, "{\"balance\":42,\"nonce\":0,\"code_hash\":\"ab\\\"c\",\"storage_root\":null}");
    assert!(state.is_contract());
}

#[test]
fn height_keys_sort_as_heights_and_read_back() {
    let heights = [0u64, 1, 255, 256, 65_535, 1 << 40, u64::MAX];
    for w in heights.windows(2) {
        assert!(Keys::height(BlockHeight(w[0])) < Keys::height(BlockHeight(w[1])));
    }
    for h in heights {
        assert_eq!(be_decode(&Keys::height(BlockHeight(h))), h);
    }
    assert_eq!(Keys::height(BlockHeight(1)), [0, 0, 0, 0, 0, 0, 0, 1]);
}

#[test]
fn block_key_is_b_then_hash() {
    let h = hash::Hash::sha256(b"k");
    let k = Keys::block(&h);
    assert_eq!(k.len(), 33);
    assert_eq!(k[0], b'b');
    assert_eq!(&k[1..], h.as_bytes());
    assert_eq!(Keys::hash(&h), *h.as_bytes());
}

#[test]
fn put_block_batch_writes_block_header_and_height() {
    let g = Block::genesis();
    let batch = put_block_batch(&g);
    assert_eq!(batch.len(), 3);
    assert_eq!(batch[0].column, Column::Blocks);
    assert_eq!(batch[0].value, g.to_json());
    assert_eq!(batch[1].column, Column::Headers);
    assert_eq!(batch[1].value, g.header.to_json());
    assert_eq!(batch[2].column, Column::Heights);
    assert_eq!(batch[2].key, Keys::height(BlockHeight(0)).to_vec());
    assert_eq!(batch[2].value, g.hash().as_bytes().to_vec());
}

#[test]
fn best_tip_metadata_errors() {
    assert_eq!(decode_best_tip(None, Some(vec![0; 8])), Ok(None));
    assert_eq!(decode_best_tip(Some(vec![0; 32]), None), Ok(None));
    assert_eq!(
        decode_best_tip(Some(vec![0; 31]), Some(vec![0; 8])),
        Err(StorageError::Corruption("invalid best_tip metadata".to_string()))
    );
    assert_eq!(
        hash_from_index(&[1, 2, 3]),
        Err(StorageError::Corruption("invalid hash length".to_string()))
    );
    assert_eq!(hash_from_index(&[5u8; 32]), Ok(hash::Hash::from_bytes([5u8; 32])));
}

#[test]
fn unreadable_sender_fails_the_block_and_unreadable_miner_starts_empty() {
    let miner = addr(3);
    let block = make_block_with_coinbase(hash::Hash::zero(), BlockHeight(1), miner, Amount(7), vec![]);
    let loaded = vec![(miner, Err(StorageError::Read("disk".to_string())))];
    match apply_block(&block, false, &loaded).unwrap() {
        BlockStep::Commit { result, .. } => assert_eq!(result.txs_applied, 1),
        other => panic!("unexpected: {other:?}"),
    }
    let sender = addr(4);
    let block2 = make_block_with_coinbase(
        hash::Hash::zero(),
        BlockHeight(1),
        miner,
        Amount(7),
        vec![transfer(sender, miner, 1, 1, 0)],
    );
    let loaded2 = vec![
        (miner, Ok(AccountState::default())),
        (sender, Err(StorageError::Read("disk".to_string()))),
    ];
    assert_eq!(
        apply_block(&block2, false, &loaded2).unwrap_err(),
        StorageError::Read("disk".to_string())
    );
}

#[test]
fn amount_plus_fee_overflow_fails_the_block() {
    let miner = addr(5);
    let sender = addr(6);
    let block = make_block_with_coinbase(
        hash::Hash::zero(),
        BlockHeight(1),
        miner,
        Amount(7),
        vec![transfer(sender, miner, u64::MAX, 1, 0)],
    );
    let loaded = vec![(miner, Ok(AccountState::default())), (sender, Ok(AccountState::default()))];
    assert_eq!(apply_block(&block, false, &loaded).unwrap_err(), StorageError::Overflow);
}

#[test]
fn contract_transactions_are_skipped_and_each_account_is_read_once() {
    let mut db = MemDb::new();
    let miner = addr(8);
    let deploy = Transaction {
        version: 1,
        kind: TxKind::ContractDeploy { bytecode: vec![0], init_args: vec![], gas_limit: 10 },
        from: Some(miner),
        to: miner,
        amount: Amount(1),
        fee: Amount(0),
        nonce: 0,
        timestamp: Timestamp(0),
        signature: None,
        public_key: None,
    };
    let block = make_block_with_coinbase(hash::Hash::zero(), BlockHeight(1), miner, Amount(9), vec![deploy]);
    let result = db.apply_block(&block).unwrap();
    assert_eq!(result, ApplyResult { txs_applied: 1, txs_skipped: 1 });
    assert_eq!(db.reads, 1);
}

#[test]
fn storage_error_messages() {
    assert_eq!(StorageError::InsufficientBalance.message(), "insufficient balance");
    assert_eq!(StorageError::Corruption("x".to_string()).message(), "database corruption: x");
}
