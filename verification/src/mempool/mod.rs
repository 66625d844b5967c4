//! The pool of pending transactions.
//!
//! Transactions are ranked for mining by fee per byte (the fee over the
//! size of the transaction's JSON text), then by the fee itself, then by
//! age. The pool holds at most `max_size` transactions; a transaction that
//! comes to a full pool evicts one with the lowest fee per byte.
pub mod error;

use crate::mempool::error::{mempool_message, MempoolError};
use crate::primitives::digest::hex_lower;
use crate::primitives::transaction::{json_tx, tx_id_spec, validate_basic_spec, Transaction, TxId, TxModel};
use crate::primitives::types::Amount;
use vstd::prelude::*;

verus! {

#[verifier::external_type_specification]
#[verifier::external_body]
#[verifier::reject_recursive_types(K)]
#[verifier::reject_recursive_types(V)]
#[verifier::reject_recursive_types(S)]
pub struct ExDashMap<K, V, S>(dashmap::DashMap<K, V, S>);

/// The concurrent map of a pool: transaction id bytes to entries.
pub type PoolMap = dashmap::DashMap<[u8; 32], MempoolEntry>;

/// The number of transactions a pool holds by default.
pub const MAX_MEMPOOL_TXS: usize = 5_000;

/// A transaction in the pool, with its rank.
#[derive(Debug)]
pub struct MempoolEntry {
    /// The transaction.
    pub tx: Transaction,
    /// Its fee per byte of JSON text.
    pub fee_per_byte: u64,
    /// Its arrival number: lower numbers came earlier.
    pub seq: u64,
}

/// The value of an entry.
pub struct EntryModel {
    pub tx: TxModel,
    pub fee_per_byte: u64,
    pub seq: u64,
}

impl View for MempoolEntry {
    type V = EntryModel;

    open spec fn view(&self) -> EntryModel {
        EntryModel { tx: self.tx@, fee_per_byte: self.fee_per_byte, seq: self.seq }
    }
}

impl Clone for MempoolEntry {
    fn clone(&self) -> (r: Self)
        ensures
            r@ == self@,
    {
        MempoolEntry { tx: self.tx.clone(), fee_per_byte: self.fee_per_byte, seq: self.seq }
    }
}

/// What the concurrent map of the pool holds: each transaction id's bytes,
/// mapped to its entry.
pub uninterp spec fn pool_contents(m: PoolMap) -> Map<Seq<u8>, EntryModel>;

/// `s` lists the map: each pair is in it, each key of it is in `s`, and no
/// key occurs twice.
pub open spec fn listing(s: Seq<(Seq<u8>, EntryModel)>, m: Map<Seq<u8>, EntryModel>) -> bool {
    &&& s.len() == m.len()
    &&& forall|i: int| 0 <= i < s.len() ==> #[trigger] m.contains_key(s[i].0) && m[s[i].0] == s[i].1
    &&& forall|k: Seq<u8>| #[trigger] m.contains_key(k) ==> exists|i: int| 0 <= i < s.len() && s[i].0 == k
    &&& forall|i: int, j: int| 0 <= i < s.len() && 0 <= j < s.len() && i != j ==> s[i].0 != s[j].0
}

/// The values of a list of pairs taken from the map.
pub open spec fn pairs_view(v: Seq<([u8; 32], MempoolEntry)>) -> Seq<(Seq<u8>, EntryModel)> {
    v.map_values(|p: ([u8; 32], MempoolEntry)| (p.0@, p.1@))
}

/// The contents of a pool with nothing in it.
pub open spec fn empty_pool() -> Map<Seq<u8>, EntryModel> {
    Map::empty()
}

/// `DashMap::with_capacity`: a map with nothing in it. Far larger
/// capacities make the table's size computation overflow, which panics;
/// they are left out.
#[verifier::external_body]
fn pool_map_new(capacity: usize) -> (r: PoolMap)
    requires
        capacity <= u32::MAX,
    ensures
        pool_contents(r) == empty_pool(),
{
    dashmap::DashMap::with_capacity(capacity)
}

/// `DashMap::contains_key`: whether the key is in the map.
#[verifier::external_body]
fn pool_map_contains(m: &PoolMap, k: &[u8; 32]) -> (r: bool)
    ensures
        r == pool_contents(*m).contains_key(k@),
{
    m.contains_key(k)
}

/// `DashMap::len`: the number of entries.
#[verifier::external_body]
fn pool_map_len(m: &PoolMap) -> (r: usize)
    ensures
        r == pool_contents(*m).len(),
{
    m.len()
}

/// `DashMap::insert`: the key now maps to the value.
#[verifier::external_body]
fn pool_map_insert(m: &mut PoolMap, k: [u8; 32], v: MempoolEntry)
    ensures
        pool_contents(*final(m)) == pool_contents(*old(m)).insert(k@, v@),
{
    let _ = m.insert(k, v);
}

/// `DashMap::remove`: the key is no longer in the map.
#[verifier::external_body]
fn pool_map_remove(m: &mut PoolMap, k: &[u8; 32])
    ensures
        pool_contents(*final(m)) == pool_contents(*old(m)).remove(k@),
{
    let _ = m.remove(k);
}

/// `DashMap::get`, with the transaction of the entry cloned.
#[verifier::external_body]
fn pool_map_get_tx(m: &PoolMap, k: &[u8; 32]) -> (r: Option<Transaction>)
    ensures
        match r {
            Some(t) => pool_contents(*m).contains_key(k@) && t@ == pool_contents(*m)[k@].tx,
            None => !pool_contents(*m).contains_key(k@),
        },
{
    m.get(k).map(|e| e.tx.clone())
}

/// `DashMap::iter`, collected: each entry once, in an order the map does
/// not promise.
#[verifier::external_body]
fn pool_map_entries(m: &PoolMap) -> (r: Vec<([u8; 32], MempoolEntry)>)
    ensures
        listing(pairs_view(r@), pool_contents(*m)),
{
    m.iter().map(|e| (*e.key(), e.value().clone())).collect()
}

/// The fee per byte of a transaction: its fee over the length of its JSON
/// text.
pub open spec fn fee_per_byte_spec(t: TxModel) -> u64 {
    let size = json_tx(t).len();
    (t.fee.0 as nat / (if size == 0 { 1 } else { size })) as u64
}

/// The fee per byte is the whole number of fee units per byte of the
/// transaction's JSON text: that many per byte fit within the fee, one more
/// per byte does not.
pub proof fn lemma_fee_per_byte_divides(t: TxModel)
    ensures
        json_tx(t).len() > 0,
        fee_per_byte_spec(t) * json_tx(t).len() <= t.fee.0,
        t.fee.0 < (fee_per_byte_spec(t) + 1) * json_tx(t).len(),
{
    assert(json_tx(t).len() > 0) by {
        reveal(json_tx);
        reveal_strlit("}");
        assert(vstd::utf8::is_ascii_chars("}"@));
        vstd::utf8::is_ascii_chars_encode_utf8("}"@);
    }
    let n = json_tx(t).len() as int;
    let f = t.fee.0 as int;
    let q = f / n;
    assert(q * n <= f && f < (q + 1) * n && 0 <= q <= f) by (nonlinear_arith)
        requires
            n > 0,
            f >= 0,
            q == f / n,
    ;
    assert(fee_per_byte_spec(t) == q);
}

/// `a` is taken for a block before `b`: higher fee per byte, then higher
/// fee, then earlier arrival.
pub open spec fn ranks_before(a: EntryModel, b: EntryModel) -> bool {
    ||| a.fee_per_byte > b.fee_per_byte
    ||| a.fee_per_byte == b.fee_per_byte && a.tx.fee.0 > b.tx.fee.0
    ||| a.fee_per_byte == b.fee_per_byte && a.tx.fee.0 == b.tx.fee.0 && a.seq < b.seq
}

/// The first `k` pairs of `s` are its best `k`, best first.
pub open spec fn ranked_prefix(s: Seq<(Seq<u8>, EntryModel)>, k: int) -> bool {
    &&& forall|i: int, j: int| 0 <= i < j < k ==> ranks_before(s[i].1, s[j].1)
    &&& forall|i: int, j: int| 0 <= i < k <= j < s.len() ==> ranks_before(s[i].1, s[j].1)
}

/// The fees summed in order, an addition that overflows being left out.
pub open spec fn fold_fees(s: Seq<(Seq<u8>, EntryModel)>) -> u64
    decreases s.len(),
{
    if s.len() == 0 {
        0
    } else {
        let acc = fold_fees(s.drop_last());
        let f = s.last().1.tx.fee.0;
        if acc + f <= u64::MAX {
            (acc + f) as u64
        } else {
            acc
        }
    }
}

/// The sum of the fees.
pub open spec fn fee_sum(s: Seq<(Seq<u8>, EntryModel)>) -> int
    decreases s.len(),
{
    if s.len() == 0 {
        0
    } else {
        fee_sum(s.drop_last()) + s.last().1.tx.fee.0
    }
}

/// Where the fees of a listing add up without overflow, the fold is their
/// sum.
pub proof fn lemma_fold_fees_is_sum(s: Seq<(Seq<u8>, EntryModel)>)
    requires
        fee_sum(s) <= u64::MAX,
    ensures
        fold_fees(s) == fee_sum(s),
    decreases s.len(),
{
    if s.len() > 0 {
        lemma_fee_sum_nonneg(s.drop_last());
        lemma_fold_fees_is_sum(s.drop_last());
    }
}

proof fn lemma_fee_sum_nonneg(s: Seq<(Seq<u8>, EntryModel)>)
    ensures
        fee_sum(s) >= 0,
    decreases s.len(),
{
    if s.len() > 0 {
        lemma_fee_sum_nonneg(s.drop_last());
    }
}

/// The ids in a list, as a set of byte strings.
pub open spec fn id_set(ids: Seq<TxId>) -> Set<Seq<u8>> {
    Set::new(|k: Seq<u8>| exists|i: int| 0 <= i < ids.len() && ids[i]@ == k)
}

/// Swaps the items at `i` and `j`.
fn swap_items<T>(v: &mut Vec<T>, i: usize, j: usize)
    requires
        i <= j < old(v)@.len(),
    ensures
        final(v)@ == old(v)@.update(i as int, old(v)@[j as int]).update(j as int, old(v)@[i as int]),
{
    if i == j {
        assert(v@ =~= v@.update(i as int, v@[j as int]).update(j as int, v@[i as int]));
        return;
    }
    let ghost o = v@;
    let b = v.remove(j);
    let a = v.remove(i);
    v.insert(i, b);
    v.insert(j, a);
    assert(v@ =~= o.update(i as int, o[j as int]).update(j as int, o[i as int]));
}

/// The pool of pending transactions.
pub struct Mempool {
    entries: PoolMap,
    max_size: usize,
    next_seq: u64,
}

impl Mempool {
    /// The transactions in the pool, by the bytes of their ids.
    pub closed spec fn contents(&self) -> Map<Seq<u8>, EntryModel> {
        pool_contents(self.entries)
    }

    /// The most transactions the pool holds.
    pub closed spec fn capacity(&self) -> nat {
        self.max_size as nat
    }

    /// The arrival number the next transaction gets.
    pub closed spec fn next_arrival(&self) -> u64 {
        self.next_seq
    }

    /// Each transaction is under its id with its own fee per byte, and
    /// arrival numbers are distinct and below the next one.
    pub closed spec fn wf(&self) -> bool {
        &&& self.contents().dom().finite()
        &&& self.contents().len() <= self.max_size
        &&& forall|k: Seq<u8>| #[trigger]
            self.contents().contains_key(k) ==> k == tx_id_spec(self.contents()[k].tx)
                && self.contents()[k].seq < self.next_seq
                && self.contents()[k].fee_per_byte == fee_per_byte_spec(self.contents()[k].tx)
        &&& forall|a: Seq<u8>, b: Seq<u8>|
            #[trigger] self.contents().contains_key(a) && #[trigger] self.contents().contains_key(b)
                && a != b ==> self.contents()[a].seq != self.contents()[b].seq
    }

    /// The message `add` refuses `tx` with, or `None` where it takes it:
    /// an invalid transaction, one already in the pool, a pool that can take
    /// nothing, or arrival numbers run out.
    pub open spec fn refusal(&self, tx: TxModel) -> Option<Seq<char>> {
        let id = tx_id_spec(tx);
        match validate_basic_spec(tx) {
            Err(m) => Some("invalid transaction: "@ + ("invalid transaction: "@ + m)),
            Ok(_) => if self.contents().contains_key(id) {
                Some("duplicate transaction: "@ + hex_lower(id))
            } else if self.contents().len() >= self.capacity() && self.contents().len() == 0 {
                Some("mempool is full"@)
            } else if self.next_arrival() == u64::MAX {
                Some("mempool is full"@)
            } else {
                None
            },
        }
    }

    /// `after` is the pool's contents once `add` has taken `tx`: `tx` is
    /// inserted under its id, after one entry ranked lowest by fee per byte
    /// is evicted where the pool was full.
    pub open spec fn admits(&self, tx: TxModel, after: Map<Seq<u8>, EntryModel>) -> bool {
        let id = tx_id_spec(tx);
        let c = self.contents();
        let entry = EntryModel { tx: tx, fee_per_byte: fee_per_byte_spec(tx), seq: self.next_arrival() };
        if c.len() < self.capacity() {
            after == c.insert(id, entry)
        } else {
            exists|v: Seq<u8>|
                #[trigger] c.contains_key(v) && (forall|w: Seq<u8>|
                    #[trigger] c.contains_key(w) ==> c[v].fee_per_byte <= c[w].fee_per_byte)
                    && after == c.remove(v).insert(id, entry)
        }
    }

    /// A pool of the default capacity.
    pub fn new() -> (r: Self)
        ensures
            r.wf(),
            r.contents() == Map::<Seq<u8>, EntryModel>::empty(),
            r.capacity() == MAX_MEMPOOL_TXS,
    {
        Self::with_capacity(MAX_MEMPOOL_TXS)
    }

    /// A pool that holds at most `max_size` transactions (at most
    /// `u32::MAX`: far larger tables cannot be sized).
    pub fn with_capacity(max_size: usize) -> (r: Self)
        requires
            max_size <= u32::MAX,
        ensures
            r.wf(),
            r.contents() == Map::<Seq<u8>, EntryModel>::empty(),
            r.capacity() == max_size,
    {
        Mempool { entries: pool_map_new(max_size), max_size, next_seq: 0 }
    }

    /// Adds a transaction that passes basic validation and is not in the
    /// pool already. Where the pool is full, one transaction with the
    /// lowest fee per byte is evicted first; where it is full and empty
    /// (capacity 0), or has given out every arrival number, the result is
    /// `Full`. Returns the transaction's id.
    pub fn add(&mut self, tx: Transaction) -> (r: Result<TxId, MempoolError>)
        requires
            old(self).wf(),
        ensures
            final(self).wf(),
            final(self).capacity() == old(self).capacity(),
            r matches Ok(h) ==> final(self).contents().contains_key(h@) && final(self).contents()[h@].tx
                == tx@,
            r is Err ==> final(self).contents() == old(self).contents(),
            r is Ok ==> old(self).admits(tx@, final(self).contents()),
            r matches Err(e) ==> old(self).refusal(tx@) == Some(mempool_message(e)),
            r is Ok <==> old(self).refusal(tx@) is None,
            final(self).contents().dom().finite(),
            r is Ok ==> final(self).contents().len() == (if old(self).contents().len() < old(
                self,
            ).capacity() {
                old(self).contents().len() + 1
            } else {
                old(self).contents().len()
            }),
            match validate_basic_spec(tx@) {
                Err(m) => r matches Err(MempoolError::InvalidTransaction(s)) && s@ == "invalid transaction: "@ + m
                    && final(self).contents() == old(self).contents(),
                Ok(_) => {
                    let id = tx_id_spec(tx@);
                    let old_c = old(self).contents();
                    let entry = EntryModel {
                        tx: tx@,
                        fee_per_byte: fee_per_byte_spec(tx@),
                        seq: old(self).next_arrival(),
                    };
                    if old_c.contains_key(id) {
                        r matches Err(MempoolError::DuplicateTransaction(h)) && h@ == id
                            && final(self).contents() == old_c
                    } else if old_c.len() >= old(self).capacity() && old_c.len() == 0 {
                        r matches Err(MempoolError::Full) && final(self).contents() == old_c
                    } else if old(self).next_arrival() == u64::MAX {
                        r matches Err(MempoolError::Full) && final(self).contents() == old_c
                    } else if old_c.len() < old(self).capacity() {
                        r matches Ok(h) && h@ == id && final(self).contents() == old_c.insert(id, entry)
                    } else {
                        r matches Ok(h) && h@ == id && exists|v: Seq<u8>|
                            #[trigger] old_c.contains_key(v) && (forall|w: Seq<u8>|
                                #[trigger] old_c.contains_key(w) ==> old_c[v].fee_per_byte
                                    <= old_c[w].fee_per_byte) && final(self).contents()
                                == old_c.remove(v).insert(id, entry)
                    }
                },
            },
    {
        match tx.validate_basic() {
            Ok(()) => {},
            Err(e) => {
                let m = e.message();
                return Err(MempoolError::InvalidTransaction(m));
            },
        }
        let txid = tx.tx_id();
        if pool_map_contains(&self.entries, &txid.0) {
            return Err(MempoolError::DuplicateTransaction(txid));
        }
        let len = pool_map_len(&self.entries);
        if len >= self.max_size && len == 0 {
            return Err(MempoolError::Full);
        }
        if self.next_seq == u64::MAX {
            return Err(MempoolError::Full);
        }
        let ghost before = self.contents();
        if len >= self.max_size {
            let ev = self.evict_lowest_fee();
            assert(ev is Ok);
        }
        let ghost mid = self.contents();
        assert(!mid.contains_key(txid@));
        assert(mid.len() < self.max_size);
        let size = tx.to_json().len() as u64;
        let fee_per_byte = tx.fee.0 / (if size == 0 { 1 } else { size });
        let seq = self.next_seq;
        let entry = MempoolEntry { tx, fee_per_byte, seq };
        pool_map_insert(&mut self.entries, txid.0, entry);
        self.next_seq = self.next_seq + 1;
        proof {
            let c = self.contents();
            assert forall|k: Seq<u8>| #[trigger] c.contains_key(k) implies k == tx_id_spec(c[k].tx)
                && c[k].seq < self.next_seq by {
                if k != txid@ {
                    assert(mid.contains_key(k));
                }
            }
            assert forall|a: Seq<u8>, b: Seq<u8>|
                #[trigger] c.contains_key(a) && #[trigger] c.contains_key(b) && a != b implies c[a].seq
                != c[b].seq by {
                if a != txid@ {
                    assert(mid.contains_key(a));
                }
                if b != txid@ {
                    assert(mid.contains_key(b));
                }
            }
        }
        Ok(txid)
    }

    /// Every entry of a pool is its transaction under the transaction's id,
    /// ranked by the transaction's own fee per byte.
    pub proof fn lemma_entries_match_transactions(&self)
        requires
            self.wf(),
        ensures
            forall|k: Seq<u8>| #[trigger]
                self.contents().contains_key(k) ==> k == tx_id_spec(self.contents()[k].tx)
                    && self.contents()[k].fee_per_byte == fee_per_byte_spec(self.contents()[k].tx),
    {
    }

    /// A pool holds finitely many transactions, never more than its capacity.
    pub proof fn lemma_within_capacity(&self)
        requires
            self.wf(),
        ensures
            self.contents().dom().finite(),
            self.contents().len() <= self.capacity(),
    {
    }

    /// The transactions for a block: at most `max_count`, best ranked first
    /// (see `ranks_before`).
    pub fn select_for_block(&self, max_count: usize) -> (r: Vec<Transaction>)
        requires
            self.wf(),
        ensures
            r@.len() == (if max_count < self.contents().len() {
                max_count as int
            } else {
                self.contents().len() as int
            }),
            exists|s: Seq<(Seq<u8>, EntryModel)>|
                listing(s, self.contents()) && ranked_prefix(s, r@.len() as int) && forall|j: int|
                    0 <= j < r@.len() ==> #[trigger] r@[j]@ == s[j].1.tx,
    {
        let mut work = pool_map_entries(&self.entries);
        let n = work.len();
        let k = if max_count < n {
            max_count
        } else {
            n
        };
        let ghost c = self.contents();
        let mut r: usize = 0;
        while r < k
            invariant
                k <= n,
                n == work@.len(),
                r <= k,
                self.wf(),
                c == self.contents(),
                listing(pairs_view(work@), c),
                ranked_prefix(pairs_view(work@), r as int),
            decreases k - r,
        {
            let ghost w0 = pairs_view(work@);
            let mut best: usize = r;
            let mut i: usize = r + 1;
            while i < n
                invariant
                    r < n,
                    r <= best < i,
                    r < i <= n,
                    n == work@.len(),
                    w0 == pairs_view(work@),
                    listing(w0, c),
                    self.wf(),
                    c == self.contents(),
                    forall|t: int| r <= t < i && t != best ==> ranks_before(w0[best as int].1, w0[t].1),
                decreases n - i,
            {
                let a = &work[i].1;
                let b = &work[best].1;
                if a.fee_per_byte > b.fee_per_byte || (a.fee_per_byte == b.fee_per_byte && (a.tx.fee.0
                    > b.tx.fee.0 || (a.tx.fee.0 == b.tx.fee.0 && a.seq < b.seq))) {
                    proof {
                        assert forall|t: int| r <= t < i + 1 && t != i implies ranks_before(
                            w0[i as int].1,
                            w0[t].1,
                        ) by {
                            if t != best {
                                assert(ranks_before(w0[best as int].1, w0[t].1));
                            }
                        }
                    }
                    best = i;
                } else {
                    proof {
                        assert(w0[i as int].0 != w0[best as int].0);
                        assert(c.contains_key(w0[i as int].0));
                        assert(c.contains_key(w0[best as int].0));
                        assert(w0[i as int].1.seq != w0[best as int].1.seq);
                    }
                }
                i = i + 1;
            }
            let ghost before = work@;
            swap_items(&mut work, r, best);
            proof {
                let w1 = pairs_view(work@);
                assert(w1.len() == w0.len());
                assert(w1 == w0.update(r as int, w0[best as int]).update(best as int, w0[r as int]));
                assert forall|kk: Seq<u8>| #[trigger] c.contains_key(kk) implies exists|t: int|
                    0 <= t < w1.len() && w1[t].0 == kk by {
                    let t0 = choose|t: int| 0 <= t < w0.len() && w0[t].0 == kk;
                    if t0 == r {
                        assert(w1[best as int].0 == kk);
                    } else if t0 == best {
                        assert(w1[r as int].0 == kk);
                    } else {
                        assert(w1[t0].0 == kk);
                    }
                }
                assert forall|a: int, b: int| 0 <= a < r + 1 && r + 1 <= b < w1.len() implies ranks_before(
                    w1[a].1,
                    w1[b].1,
                ) by {
                    if a < r {
                        if b == best {
                            assert(ranks_before(w0[a].1, w0[r as int].1));
                        } else {
                            assert(ranks_before(w0[a].1, w0[b].1));
                        }
                    } else {
                        if b == best {
                            assert(ranks_before(w0[best as int].1, w0[r as int].1));
                        } else {
                            assert(ranks_before(w0[best as int].1, w0[b].1));
                        }
                    }
                }
                assert forall|a: int, b: int| 0 <= a < b < r + 1 implies ranks_before(w1[a].1, w1[b].1) by {
                    if b == r {
                        assert(ranks_before(w0[a].1, w0[best as int].1));
                    }
                }
            }
            r = r + 1;
        }
        let mut out: Vec<Transaction> = Vec::new();
        let mut j: usize = 0;
        while j < k
            invariant
                j <= k,
                k <= work@.len(),
                out@.len() == j,
                forall|t: int| 0 <= t < j ==> #[trigger] out@[t]@ == pairs_view(work@)[t].1.tx,
            decreases k - j,
        {
            out.push(work[j].1.tx.clone());
            j = j + 1;
        }
        proof {
            assert(listing(pairs_view(work@), c));
        }
        out
    }

    /// Removes the transactions with these ids (those that a confirmed
    /// block holds).
    pub fn remove_confirmed(&mut self, txids: &[TxId])
        requires
            old(self).wf(),
        ensures
            final(self).wf(),
            final(self).capacity() == old(self).capacity(),
            final(self).contents() == old(self).contents().remove_keys(id_set(txids@)),
            forall|i: int| 0 <= i < txids@.len() ==> !final(self).contents().contains_key(#[trigger] txids@[i]@),
    {
        let ghost start = self.contents();
        let mut i: usize = 0;
        while i < txids.len()
            invariant
                i <= txids@.len(),
                self.wf(),
                self.max_size == old(self).max_size,
                self.contents() == start.remove_keys(id_set(txids@.take(i as int))),
            decreases txids@.len() - i,
        {
            let ghost c0 = self.contents();
            pool_map_remove(&mut self.entries, &txids[i].0);
            i = i + 1;
            proof {
                assert(id_set(txids@.take(i as int)) =~= id_set(txids@.take(i - 1)).insert(
                    txids@[i - 1]@,
                )) by {
                    assert forall|kk: Seq<u8>| id_set(txids@.take(i as int)).contains(kk) implies id_set(
                        txids@.take(i - 1),
                    ).insert(txids@[i - 1]@).contains(kk) by {
                        let t = choose|t: int| 0 <= t < i && #[trigger] txids@.take(i as int)[t]@ == kk;
                        if t < i - 1 {
                            assert(txids@.take(i - 1)[t]@ == kk);
                        }
                    }
                    assert forall|kk: Seq<u8>| id_set(txids@.take(i - 1)).insert(txids@[i - 1]@).contains(kk)
                        implies id_set(txids@.take(i as int)).contains(kk) by {
                        if kk == txids@[i - 1]@ {
                            assert(txids@.take(i as int)[i - 1]@ == kk);
                        } else {
                            let t = choose|t: int| 0 <= t < i - 1 && #[trigger] txids@.take(i - 1)[t]@ == kk;
                            assert(txids@.take(i as int)[t]@ == kk);
                        }
                    }
                }
                assert(self.contents() =~= start.remove_keys(id_set(txids@.take(i as int))));
            }
        }
        assert(txids@.take(txids@.len() as int) =~= txids@);
    }

    /// The transaction with this id, if it is in the pool.
    pub fn get(&self, txid: &TxId) -> (r: Option<Transaction>)
        ensures
            match r {
                Some(t) => self.contents().contains_key(txid@) && t@ == self.contents()[txid@].tx,
                None => !self.contents().contains_key(txid@),
            },
    {
        pool_map_get_tx(&self.entries, &txid.0)
    }

    /// The number of transactions in the pool.
    pub fn len(&self) -> (r: usize)
        ensures
            r == self.contents().len(),
    {
        pool_map_len(&self.entries)
    }

    /// Whether the pool is empty.
    pub fn is_empty(&self) -> (r: bool)
        ensures
            r == (self.contents().len() == 0),
    {
        pool_map_len(&self.entries) == 0
    }

    /// The fees of the pending transactions summed, in some order of the
    /// pool, an addition that would overflow being left out (see
    /// `lemma_fold_fees_is_sum` for the case where nothing overflows).
    pub fn total_fees(&self) -> (r: Amount)
        ensures
            exists|s: Seq<(Seq<u8>, EntryModel)>| listing(s, self.contents()) && r.0 == fold_fees(s),
    {
        let all = pool_map_entries(&self.entries);
        let ghost s = pairs_view(all@);
        let mut acc = Amount(0);
        let mut i: usize = 0;
        while i < all.len()
            invariant
                i <= all@.len(),
                s == pairs_view(all@),
                acc.0 == fold_fees(s.take(i as int)),
            decreases all@.len() - i,
        {
            let f = all[i].1.tx.fee;
            proof {
                assert(s.take(i + 1).drop_last() =~= s.take(i as int));
            }
            acc = match acc.checked_add(f) {
                Some(v) => v,
                None => acc,
            };
            i = i + 1;
        }
        assert(s.take(s.len() as int) =~= s);
        acc
    }

    /// Evicts one transaction with the lowest fee per byte; `Full` where
    /// the pool is empty.
    fn evict_lowest_fee(&mut self) -> (r: Result<(), MempoolError>)
        requires
            old(self).wf(),
        ensures
            final(self).wf(),
            final(self).max_size == old(self).max_size,
            final(self).next_seq == old(self).next_seq,
            old(self).contents().len() == 0 ==> (r matches Err(MempoolError::Full) && final(self).contents()
                == old(self).contents()),
            old(self).contents().len() > 0 ==> (r is Ok && exists|v: Seq<u8>|
                #[trigger] old(self).contents().contains_key(v) && (forall|w: Seq<u8>|
                    #[trigger] old(self).contents().contains_key(w) ==> old(self).contents()[v].fee_per_byte
                        <= old(self).contents()[w].fee_per_byte) && final(self).contents()
                    == old(self).contents().remove(v)),
    {
        let all = pool_map_entries(&self.entries);
        let ghost s = pairs_view(all@);
        let ghost c = self.contents();
        if all.len() == 0 {
            return Err(MempoolError::Full);
        }
        let mut m: usize = 0;
        let mut i: usize = 1;
        while i < all.len()
            invariant
                0 <= m < i <= all@.len(),
                s == pairs_view(all@),
                forall|t: int| 0 <= t < i ==> s[m as int].1.fee_per_byte <= s[t].1.fee_per_byte,
            decreases all@.len() - i,
        {
            if all[i].1.fee_per_byte < all[m].1.fee_per_byte {
                m = i;
            }
            i = i + 1;
        }
        let victim = all[m].0;
        pool_map_remove(&mut self.entries, &victim);
        proof {
            let v = s[m as int].0;
            assert(c.contains_key(v));
            assert forall|w: Seq<u8>| #[trigger] c.contains_key(w) implies c[v].fee_per_byte
                <= c[w].fee_per_byte by {
                let t = choose|t: int| 0 <= t < s.len() && s[t].0 == w;
                assert(c.contains_key(s[t].0));
            }
            assert(self.contents() == c.remove(v));
        }
        Ok(())
    }
}

impl Default for Mempool {
    fn default() -> (r: Self)
        ensures
            r.wf(),
            r.contents() == Map::<Seq<u8>, EntryModel>::empty(),
            r.capacity() == MAX_MEMPOOL_TXS,
    {
        Self::new()
    }
}

} // verus!
