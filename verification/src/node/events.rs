//! What the node's loops decide: restoring the tip at start, the next
//! block to mine, and what follows a mined block, an incoming block or an
//! incoming transaction. The loops themselves (await, channels, the store)
//! run outside.
use crate::mempool::{id_set, Mempool};
use crate::node::config::MiningConfig;
use crate::node::error::NodeError;
use crate::node::state::{ChainState, ChainTip};
use crate::primitives::block::{header_hash_spec, is_genesis_block, txs_view, Block};
use crate::primitives::error::PrimitivesError;
use crate::primitives::hash;
use crate::primitives::transaction::{tx_id_spec, validate_basic_spec, Transaction, TxId, TxModel};
use crate::primitives::types::{address_from_base58_spec, Address, BlockHeight};
use vstd::prelude::*;

verus! {

/// An event on the node's internal bus.
#[derive(Debug, Clone)]
pub enum NodeEvent {
    /// A block was added to the chain.
    NewBlock(Box<Block>),
    /// A transaction entered the pool.
    NewTransaction(TxId),
    /// The best tip changed to another chain.
    ChainReorg {
        /// The tip before.
        old_tip: hash::Hash,
        /// The tip after.
        new_tip: hash::Hash,
    },
    /// The node is shutting down.
    Shutdown,
}

/// The most transactions a mined block takes from the pool.
pub const MINING_TX_LIMIT: usize = 500;

/// The difficulty the node mines at.
pub const MINING_BITS: u32 = 20;

/// The number of mining threads.
pub const MINING_THREADS: usize = 1;

/// The network version of the chain state.
pub const NETWORK_VERSION: u32 = 1;

/// The chain state at start: at the store's best tip where it has one,
/// else at the zero tip.
pub fn restore_chain_state(best_tip: Option<(hash::Hash, BlockHeight)>) -> (r: ChainState)
    ensures
        r.version_spec() == NETWORK_VERSION,
        !r.syncing_spec(),
        match best_tip {
            Some((h, n)) => r.tip_spec() == (ChainTip { hash: h, height: n }),
            None => r.tip_spec().hash.is_zero() && r.tip_spec().height.0 == 0,
        },
{
    let mut state = ChainState::new(NETWORK_VERSION);
    if let Some((h, n)) = best_tip {
        state.update_tip(h, n);
    }
    state
}

/// The block to apply at start: the genesis block where the store has no
/// block at height 0.
pub fn genesis_to_apply(has_block_at_zero: bool) -> (r: Option<Block>)
    ensures
        has_block_at_zero ==> r is None,
        !has_block_at_zero ==> (r matches Some(b) && is_genesis_block(b)),
{
    if has_block_at_zero {
        None
    } else {
        Some(Block::genesis())
    }
}

/// The next block to mine: on the tip's hash, one above the tip; `None`
/// where the tip is at the greatest height.
pub fn next_mining_job(tip: &ChainTip) -> (r: Option<(hash::Hash, BlockHeight)>)
    ensures
        tip.height.0 < u64::MAX ==> r == Some((tip.hash, BlockHeight((tip.height.0 + 1) as u64))),
        tip.height.0 == u64::MAX ==> r is None,
{
    if tip.height.0 == u64::MAX {
        None
    } else {
        Some((tip.hash, BlockHeight(tip.height.0 + 1)))
    }
}

/// The ids of a block's transactions, in order.
pub fn confirmed_ids(block: &Block) -> (r: Vec<TxId>)
    ensures
        r@.len() == block.transactions@.len(),
        forall|i: int| 0 <= i < r@.len() ==> #[trigger] r@[i]@ == tx_id_spec(block.transactions@[i]@),
{
    let mut out: Vec<TxId> = Vec::new();
    let mut i: usize = 0;
    while i < block.transactions.len()
        invariant
            i <= block.transactions@.len(),
            out@.len() == i,
            forall|j: int| 0 <= j < i ==> #[trigger] out@[j]@ == tx_id_spec(block.transactions@[j]@),
        decreases block.transactions@.len() - i,
    {
        out.push(block.transactions[i].tx_id());
        i = i + 1;
    }
    out
}

/// The ids of a list of transactions, as a set of byte strings.
pub open spec fn block_tx_ids(txs: Seq<TxModel>) -> Set<Seq<u8>> {
    Set::new(|k: Seq<u8>| exists|i: int| 0 <= i < txs.len() && #[trigger] tx_id_spec(txs[i]) == k)
}

/// After a mined block is applied: its transactions leave the pool, the
/// tip moves to it, and the block is announced.
pub fn on_block_mined(state: &mut ChainState, pool: &mut Mempool, block: Block) -> (r: NodeEvent)
    requires
        old(pool).wf(),
    ensures
        final(pool).wf(),
        final(pool).capacity() == old(pool).capacity(),
        final(pool).contents() == old(pool).contents().remove_keys(block_tx_ids(block@.transactions)),
        final(state).tip_spec().hash@ == header_hash_spec(block.header),
        final(state).tip_spec().height == block.header.height,
        final(state).syncing_spec() == old(state).syncing_spec(),
        r matches NodeEvent::NewBlock(b) && *b == block,
{
    let ids = confirmed_ids(&block);
    proof {
        let tv = block@.transactions;
        assert forall|k: Seq<u8>| id_set(ids@).contains(k) <==> block_tx_ids(tv).contains(k) by {
            if id_set(ids@).contains(k) {
                let i = choose|i: int| 0 <= i < ids@.len() && #[trigger] ids@[i]@ == k;
                assert(tv[i] == block.transactions@[i]@);
            }
            if block_tx_ids(tv).contains(k) {
                let i = choose|i: int| 0 <= i < tv.len() && #[trigger] tx_id_spec(tv[i]) == k;
                assert(tv[i] == block.transactions@[i]@);
                assert(ids@[i]@ == k);
            }
        }
        assert(id_set(ids@) =~= block_tx_ids(tv));
    }
    pool.remove_confirmed(ids.as_slice());
    let h = block.hash();
    state.update_tip(h, block.height());
    NodeEvent::NewBlock(Box::new(block))
}

/// After an incoming block is applied: where it is higher than the tip,
/// the tip moves to it and the block is announced; otherwise nothing
/// changes.
pub fn on_block_received(state: &mut ChainState, block: Block) -> (r: Option<NodeEvent>)
    ensures
        block.header.height.0 > old(state).tip_spec().height.0 ==> (final(state).tip_spec().hash@
            == header_hash_spec(block.header) && final(state).tip_spec().height == block.header.height
            && (r matches Some(NodeEvent::NewBlock(b)) && *b == block)),
        block.header.height.0 <= old(state).tip_spec().height.0 ==> (final(state).tip_spec()
            == old(state).tip_spec() && r is None),
        final(state).tip_spec().height.0 >= old(state).tip_spec().height.0,
        final(state).syncing_spec() == old(state).syncing_spec(),
{
    let h = block.hash();
    let height = block.height();
    let tip = state.tip();
    if height.0 > tip.height.0 {
        state.update_tip(h, height);
        Some(NodeEvent::NewBlock(Box::new(block)))
    } else {
        None
    }
}

/// An incoming transaction goes to the pool; where the pool takes it, it
/// is announced by its id.
pub fn on_transaction_received(pool: &mut Mempool, tx: Transaction) -> (r: Option<NodeEvent>)
    requires
        old(pool).wf(),
    ensures
        final(pool).wf(),
        final(pool).capacity() == old(pool).capacity(),
        r matches Some(NodeEvent::NewTransaction(id)) ==> id@ == tx_id_spec(tx@)
            && final(pool).contents().contains_key(id@),
        r is Some ==> old(pool).admits(tx@, final(pool).contents()),
        r is None ==> final(pool).contents() == old(pool).contents(),
        r is Some <==> old(pool).refusal(tx@) is None,
        r is Some <==> (validate_basic_spec(tx@) is Ok && !old(pool).contents().contains_key(
            tx_id_spec(tx@),
        ) && !(old(pool).contents().len() >= old(pool).capacity() && old(pool).contents().len()
            == 0) && old(pool).next_arrival() < u64::MAX),
{
    let ghost t = tx@;
    match pool.add(tx) {
        Ok(id) => {
            Some(NodeEvent::NewTransaction(id))
        },
        Err(_) => None,
    }
}

/// The address that receives the rewards of mining: `Init("invalid
/// coinbase address")` where the configured text is no address.
pub fn mining_coinbase(config: &MiningConfig) -> (r: Result<Address, NodeError>)
    ensures
        match address_from_base58_spec(vstd::utf8::encode_utf8(config.coinbase_address@)) {
            Some(a) => r matches Ok(x) && x@ == a,
            None => r matches Err(NodeError::Init(m)) && m@ == "invalid coinbase address"@,
        },
{
    match Address::from_base58(config.coinbase_address.as_str()) {
        Ok(a) => Ok(a),
        Err(_) => Err(NodeError::Init(String::from_str("invalid coinbase address"))),
    }
}

} // verus!
