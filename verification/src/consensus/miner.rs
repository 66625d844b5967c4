//! The proof-of-work miner: tries nonces until the header's hash has the
//! required number of leading zero bits.
use crate::consensus::error::ConsensusError;
use crate::primitives::block::{header_hash_spec, merkle_root_spec, txs_view, validate_structure_spec, Block, BlockHeader};
use crate::primitives::hash;
use crate::primitives::hash::leading_zero_bits;
use crate::primitives::transaction::{Transaction, TxKind, TxKindModel, TxModel};
use crate::primitives::types::{duration_millis, Address, Amount, BlockHeight, Nonce, Timestamp};
use vstd::prelude::*;

verus! {

#[verifier::external_type_specification]
#[verifier::external_body]
pub struct ExCancellationToken(tokio_util::sync::CancellationToken);

#[verifier::external_type_specification]
#[verifier::external_body]
pub struct ExInstant(std::time::Instant);

/// `CancellationToken::is_cancelled`: nothing is claimed of the result,
/// which another task may change at any time.
#[verifier::external_body]
fn is_cancelled(token: &tokio_util::sync::CancellationToken) -> bool {
    token.is_cancelled()
}

/// `std::time::Instant::now`: nothing is claimed of the instant.
#[verifier::external_body]
fn instant_now() -> std::time::Instant {
    std::time::Instant::now()
}

/// `Instant::elapsed`: nothing is claimed of the duration, which depends
/// on the time.
#[verifier::external_body]
fn instant_elapsed(start: &std::time::Instant) -> std::time::Duration {
    start.elapsed()
}

/// Blocks between halvings of the reward.
pub const HALVING_INTERVAL: u64 = 210_000;

/// The initial block reward in rustoshi: 50 RSC.
pub const BLOCK_REWARD_INITIAL_RUSTOSHI: u64 = 5_000_000_000;

/// The initial block reward: 50 RSC.
pub fn block_reward_initial() -> (r: Amount)
    ensures
        r.0 == BLOCK_REWARD_INITIAL_RUSTOSHI,
{
    Amount(BLOCK_REWARD_INITIAL_RUSTOSHI)
}

/// The reward at a height: 50 RSC halved once per `HALVING_INTERVAL`
/// blocks, and nothing from the 64th halving on.
pub open spec fn block_reward_spec(height: u64) -> u64 {
    let halvings = height / HALVING_INTERVAL;
    if halvings >= 64 {
        0
    } else {
        BLOCK_REWARD_INITIAL_RUSTOSHI >> halvings
    }
}

/// The reward halves every `HALVING_INTERVAL` blocks.
pub proof fn lemma_reward_halves(height: u64)
    requires
        height + HALVING_INTERVAL <= u64::MAX,
    ensures
        block_reward_spec((height + HALVING_INTERVAL) as u64) == block_reward_spec(height) / 2,
{
    let k = height / HALVING_INTERVAL;
    assert((height + HALVING_INTERVAL) as u64 / HALVING_INTERVAL == k + 1);
    let c = BLOCK_REWARD_INITIAL_RUSTOSHI;
    if k < 63 {
        let k1 = (k + 1) as u64;
        assert((c >> k1) == (c >> k) / 2) by (bit_vector)
            requires
                k < 63,
                k1 == k + 1,
        ;
    } else if k == 63 {
        assert((c >> 63u64) == 0) by (bit_vector)
            requires
                c == 5_000_000_000u64,
        ;
    }
}

/// The sum of the fees, where a fee that would overflow the sum so far is
/// left out.
pub open spec fn fee_total_spec(txs: Seq<TxModel>) -> u64
    decreases txs.len(),
{
    if txs.len() == 0 {
        0
    } else {
        let acc = fee_total_spec(txs.drop_last());
        if acc + txs.last().fee.0 <= u64::MAX {
            (acc + txs.last().fee.0) as u64
        } else {
            acc
        }
    }
}

/// The plain sum of the fees of some transactions.
pub open spec fn fees_added(txs: Seq<TxModel>) -> int
    decreases txs.len(),
{
    if txs.len() == 0 {
        0
    } else {
        fees_added(txs.drop_last()) + txs.last().fee.0
    }
}

proof fn lemma_fees_added_grow(txs: Seq<TxModel>)
    ensures
        fees_added(txs) >= 0,
        txs.len() > 0 ==> fees_added(txs) >= fees_added(txs.drop_last()),
    decreases txs.len(),
{
    if txs.len() > 0 {
        lemma_fees_added_grow(txs.drop_last());
    }
}

/// Where the fees add up within 64 bits, the miner collects all of them:
/// the fee total is their plain sum.
pub proof fn lemma_fee_total_is_sum(txs: Seq<TxModel>)
    requires
        fees_added(txs) <= u64::MAX,
    ensures
        fee_total_spec(txs) == fees_added(txs),
    decreases txs.len(),
{
    lemma_fees_added_grow(txs);
    if txs.len() > 0 {
        lemma_fees_added_grow(txs.drop_last());
        lemma_fee_total_is_sum(txs.drop_last());
    }
}

/// The coinbase of a mined block pays the miner the block reward plus
/// every fee of the block's other transactions, where that fits in 64
/// bits.
pub proof fn lemma_coinbase_pays_reward_and_fees(t: TxModel, addr: Address, height: u64, txs: Seq<TxModel>)
    requires
        is_coinbase_for(t, addr, height, fee_total_spec(txs)),
        block_reward_spec(height) + fees_added(txs) <= u64::MAX,
    ensures
        t.amount.0 == block_reward_spec(height) + fees_added(txs),
        t.to == addr,
{
    lemma_fees_added_grow(txs);
    lemma_fee_total_is_sum(txs);
}

/// Below the first halving the reward is the full 50 RSC.
pub proof fn lemma_reward_before_halving(height: u64)
    requires
        height < HALVING_INTERVAL,
    ensures
        block_reward_spec(height) == BLOCK_REWARD_INITIAL_RUSTOSHI,
{
    assert(height / HALVING_INTERVAL == 0);
    assert((BLOCK_REWARD_INITIAL_RUSTOSHI >> 0u64) == BLOCK_REWARD_INITIAL_RUSTOSHI) by (bit_vector);
}

/// A coinbase paying `addr` the reward at `height` plus `fees` (the reward
/// alone where the sum overflows), with nonce = height. Its time is not
/// pinned: it is the clock's.
pub open spec fn is_coinbase_for(t: TxModel, addr: Address, height: u64, fees: u64) -> bool {
    let reward = block_reward_spec(height);
    &&& t.version == 1
    &&& t.kind is Coinbase
    &&& t.from is None
    &&& t.to == addr
    &&& t.amount.0 == (if reward + fees <= u64::MAX {
        (reward + fees) as u64
    } else {
        reward
    })
    &&& t.fee.0 == 0
    &&& t.nonce == height
    &&& t.signature is None
    &&& t.public_key is None
}

/// The result of successful mining.
#[derive(Debug)]
pub struct MineResult {
    /// The block found.
    pub block: Block,
    /// How many hashes were tried.
    pub attempts: u64,
    /// Time spent mining, in milliseconds.
    pub elapsed_ms: u64,
}

/// A proof-of-work miner.
pub struct Miner {
    /// Where the block rewards go.
    miner_address: Address,
    /// Set when mining should stop (a block came in from the network).
    cancel_token: tokio_util::sync::CancellationToken,
}

impl Miner {
    /// A miner paying rewards to `miner_address`.
    pub fn new(miner_address: Address, cancel_token: tokio_util::sync::CancellationToken) -> (r: Self)
        ensures
            r.address() == miner_address,
    {
        Miner { miner_address, cancel_token }
    }

    /// Where the rewards go.
    pub closed spec fn address(&self) -> Address {
        self.miner_address
    }

    /// The reward for a block at `height`.
    pub fn block_reward(height: BlockHeight) -> (r: Amount)
        ensures
            r.0 == block_reward_spec(height.0),
    {
        let halvings = height.0 / HALVING_INTERVAL;
        if halvings >= 64 {
            return Amount(0);
        }
        Amount(BLOCK_REWARD_INITIAL_RUSTOSHI >> halvings)
    }

    /// The coinbase transaction for a block at `height` with `fee_total` in
    /// fees.
    fn create_coinbase(&self, height: BlockHeight, fee_total: Amount) -> (r: Transaction)
        ensures
            is_coinbase_for(r@, self.address(), height.0, fee_total.0),
    {
        let reward = Self::block_reward(height);
        let total = match reward.checked_add(fee_total) {
            Some(t) => t,
            None => reward,
        };
        Transaction {
            version: 1,
            kind: TxKind::Coinbase,
            from: None,
            to: self.miner_address,
            amount: total,
            fee: Amount(0),
            nonce: height.0,
            timestamp: Timestamp::now(),
            signature: None,
            public_key: None,
        }
    }

    /// Mines a block on one thread. The block holds a coinbase (reward plus
    /// the fees, paid to the miner) followed by `transactions`; nonces are
    /// tried from 0 (the time is renewed when the nonce wraps around) until
    /// the header's hash meets `bits`. Every 10 000 attempts the cancel
    /// token is checked, and mining stops with `MiningCancelled` where it is
    /// set. Where the attempt counter would overflow, mining stops with
    /// `Internal`.
    pub fn mine_sync(
        &self,
        previous_hash: hash::Hash,
        height: BlockHeight,
        transactions: Vec<Transaction>,
        bits: u32,
        version: u32,
    ) -> (r: Result<MineResult, ConsensusError>)
        ensures
            match r {
                Ok(res) => {
                    let b = res.block@;
                    &&& b.transactions.len() == transactions@.len() + 1
                    &&& is_coinbase_for(
                        b.transactions[0],
                        self.address(),
                        height.0,
                        fee_total_spec(txs_view(transactions@)),
                    )
                    &&& b.transactions.skip(1) == txs_view(transactions@)
                    &&& b.header.version == version
                    &&& b.header.previous_hash == previous_hash
                    &&& b.header.height == height
                    &&& b.header.bits == bits
                    &&& b.header.merkle_root@ == merkle_root_spec(b.transactions)
                    &&& b.header.hash matches Some(k) && k@ == header_hash_spec(b.header)
                    &&& leading_zero_bits(header_hash_spec(b.header), bits as nat)
                    &&& validate_structure_spec(b) is Ok
                    &&& res.attempts >= 1
                    &&& block_reward_spec(height.0) + fees_added(txs_view(transactions@))
                        <= u64::MAX ==> b.transactions[0].amount.0 == block_reward_spec(height.0)
                        + fees_added(txs_view(transactions@))
                },
                Err(e) => e is MiningCancelled || e is Internal,
            },
            bits == 0 ==> (r matches Ok(res) && res.attempts == 1),
    {
        let start = instant_now();
        let mut fee_total = Amount(0);
        let mut i: usize = 0;
        while i < transactions.len()
            invariant
                i <= transactions@.len(),
                fee_total.0 == fee_total_spec(txs_view(transactions@.take(i as int))),
            decreases transactions@.len() - i,
        {
            proof {
                assert(txs_view(transactions@.take(i + 1)).drop_last() =~= txs_view(
                    transactions@.take(i as int),
                ));
            }
            fee_total = match fee_total.checked_add(transactions[i].fee) {
                Some(s) => s,
                None => fee_total,
            };
            i = i + 1;
        }
        assert(transactions@.take(transactions@.len() as int) =~= transactions@);
        proof {
            if block_reward_spec(height.0) + fees_added(txs_view(transactions@)) <= u64::MAX {
                lemma_fees_added_grow(txs_view(transactions@));
                lemma_fee_total_is_sum(txs_view(transactions@));
            }
        }
        let coinbase = self.create_coinbase(height, fee_total);
        let ghost coinbase_view = coinbase@;
        let mut all_txs: Vec<Transaction> = Vec::new();
        all_txs.push(coinbase);
        let ghost txs0 = transactions@;
        let mut rest = transactions;
        all_txs.append(&mut rest);
        assert(txs_view(all_txs@).skip(1) =~= txs_view(txs0));
        assert(txs_view(all_txs@)[0] == coinbase_view);
        let merkle_root = Block::compute_merkle_root(all_txs.as_slice());
        let mut header = BlockHeader {
            version,
            previous_hash,
            merkle_root,
            timestamp: Timestamp::now(),
            bits,
            nonce: Nonce(0),
            height,
            hash: None,
        };
        let mut attempts: u64 = 0;
        loop
            invariant
                header.version == version,
                header.previous_hash == previous_hash,
                header.merkle_root == merkle_root,
                header.bits == bits,
                header.height == height,
                header.hash is None,
                merkle_root@ == merkle_root_spec(txs_view(all_txs@)),
                all_txs@.len() == txs0.len() + 1,
                txs0 == transactions@,
                bits == 0 ==> attempts == 0,
                block_reward_spec(height.0) + fees_added(txs_view(txs0)) <= u64::MAX
                    ==> fee_total_spec(txs_view(txs0)) == fees_added(txs_view(txs0)),
                txs_view(all_txs@).skip(1) == txs_view(txs0),
                is_coinbase_for(
                    txs_view(all_txs@)[0],
                    self.address(),
                    height.0,
                    fee_total_spec(txs_view(txs0)),
                ),
            decreases u64::MAX - attempts,
        {
            if attempts == u64::MAX {
                return Err(ConsensusError::Internal(String::from_str("attempt counter exhausted")));
            }
            attempts = attempts + 1;
            if attempts % 10_000 == 0 && is_cancelled(&self.cancel_token) {
                return Err(ConsensusError::MiningCancelled);
            }
            let hash = header.compute_hash();
            if hash.meets_difficulty(bits) {
                let ghost unhashed = header;
                header.hash = Some(hash);
                proof {
                    reveal(crate::primitives::block::header_hash_data);
                    assert(crate::primitives::block::header_hash_data(header)
                        == crate::primitives::block::header_hash_data(unhashed));
                }
                let block = Block { header, transactions: all_txs };
                let elapsed = #[verifier::truncate] (duration_millis(&instant_elapsed(&start)) as u64);
                return Ok(MineResult { block, attempts, elapsed_ms: elapsed });
            }
            header.nonce.increment();
            if header.nonce.0 == 0 {
                header.timestamp = Timestamp::now();
            }
        }
    }
}

} // verus!
