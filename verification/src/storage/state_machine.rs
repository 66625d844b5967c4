//! The state transition: applying a block's transactions to the accounts.
//!
//! - A coinbase credits its amount to the recipient.
//! - A transfer takes `amount + fee` from the sender, counts one more sent
//!   transaction on the sender, and credits `amount` to the recipient.
//! - Contract calls and deployments are skipped.
//!
//! Accounts are read from the store at most once, the first time a
//! transaction needs them. The store itself is not read here: the caller
//! answers each `NeedAccount` request with what the store holds for that
//! address and calls again with the growing list of answers.
use crate::pairs::{lemma_lookup_extend, lemma_lookup_put, lemma_put_absent, lemma_put_at, lookup, put};
use crate::primitives::block::{header_hash_spec, json_block, json_header, txs_view, Block, BlockModel};
use crate::primitives::hash;
use crate::primitives::json::{lit, push_str};
use crate::primitives::transaction::{json_tx, tx_id_spec};
use crate::storage::account::json_account;
use crate::storage::keys::{be_bytes, be_decode, be_value, block_key, lemma_height_key_roundtrip, Keys};
use crate::primitives::transaction::{Transaction, TxKind, TxKindModel, TxModel};
use crate::primitives::types::{Address, Amount, BlockHeight};
use crate::storage::account::{empty_account, AccountState};
use crate::storage::error::StorageError;
use vstd::prelude::*;

verus! {

/// What applying a block came to.
#[derive(Debug, Clone, Copy, PartialEq, Eq, Structural)]
pub struct ApplyResult {
    /// The number of transactions applied.
    pub txs_applied: usize,
    /// The number of transactions skipped (contracts, failed checks).
    pub txs_skipped: usize,
}

/// What the caller has to do next.
#[derive(Debug)]
pub enum ApplyStep {
    /// Read the account at this address from the store and call again with
    /// the answer added.
    NeedAccount(Address),
    /// Every transaction has been applied: the counts, and the new state of
    /// each account read or touched, in the order first read.
    Ready { result: ApplyResult, accounts: Vec<(Address, AccountState)> },
}

/// The accounts read or touched so far, and the counts.
pub struct ApplyState {
    pub cache: Seq<(Address, AccountState)>,
    pub applied: nat,
    pub skipped: nat,
}

/// Where applying stands after some transactions.
pub enum ApplyOutcome {
    /// An account that the store has not been asked for yet is needed.
    Need(Address),
    /// Applying failed with this error.
    Failed(StorageError),
    /// Applying goes on from this state.
    Running(ApplyState),
}

/// The account state for `a`: from the accounts touched so far, else from
/// the store's answers, else not known yet.
pub open spec fn account_source(
    cache: Seq<(Address, AccountState)>,
    loaded: Seq<(Address, Result<AccountState, StorageError>)>,
    a: Address,
) -> Option<Result<AccountState, StorageError>> {
    match lookup(cache, a) {
        Some(s) => Some(Ok(s)),
        None => lookup(loaded, a),
    }
}

/// `s` with `amount` more on its balance (where that fits).
pub open spec fn credited(s: AccountState, amount: Amount) -> AccountState {
    AccountState { balance: Amount((s.balance.0 + amount.0) as u64), ..s }
}

/// The state with one more skipped transaction.
pub open spec fn skip_one(st: ApplyState, cache: Seq<(Address, AccountState)>) -> ApplyOutcome {
    ApplyOutcome::Running(ApplyState { cache: cache, applied: st.applied, skipped: st.skipped + 1 })
}

/// The state with one more applied transaction.
pub open spec fn apply_one_more(st: ApplyState, cache: Seq<(Address, AccountState)>) -> ApplyOutcome {
    ApplyOutcome::Running(ApplyState { cache: cache, applied: st.applied + 1, skipped: st.skipped })
}

/// Crediting the recipient of a transfer, once the sender is debited.
pub open spec fn transfer_credit(
    st: ApplyState,
    c2: Seq<(Address, AccountState)>,
    t: TxModel,
    loaded: Seq<(Address, Result<AccountState, StorageError>)>,
) -> ApplyOutcome {
    match account_source(c2, loaded, t.to) {
        None => ApplyOutcome::Need(t.to),
        Some(Err(e)) => ApplyOutcome::Failed(e),
        Some(Ok(r)) => {
            let c3 = put(c2, t.to, r);
            if r.balance.0 + t.amount.0 > u64::MAX {
                skip_one(st, c3)
            } else {
                apply_one_more(st, put(c3, t.to, credited(r, t.amount)))
            }
        },
    }
}

/// Applying one transaction.
pub open spec fn apply_tx(
    st: ApplyState,
    t: TxModel,
    loaded: Seq<(Address, Result<AccountState, StorageError>)>,
) -> ApplyOutcome {
    match t.kind {
        TxKindModel::Coinbase => match account_source(st.cache, loaded, t.to) {
            None => ApplyOutcome::Need(t.to),
            Some(r) => {
                let s = match r {
                    Ok(s) => s,
                    Err(_) => empty_account(),
                };
                let c1 = put(st.cache, t.to, s);
                if s.balance.0 + t.amount.0 > u64::MAX {
                    skip_one(st, c1)
                } else {
                    apply_one_more(st, put(c1, t.to, credited(s, t.amount)))
                }
            },
        },
        TxKindModel::Transfer => match t.from {
            None => skip_one(st, st.cache),
            Some(f) => match account_source(st.cache, loaded, f) {
                None => ApplyOutcome::Need(f),
                Some(Err(e)) => ApplyOutcome::Failed(e),
                Some(Ok(s)) => {
                    let c1 = put(st.cache, f, s);
                    if t.amount.0 + t.fee.0 > u64::MAX {
                        ApplyOutcome::Failed(StorageError::Overflow)
                    } else if t.nonce != s.nonce || s.balance.0 < t.amount.0 + t.fee.0 {
                        skip_one(st, c1)
                    } else if s.nonce == u64::MAX {
                        ApplyOutcome::Failed(StorageError::Overflow)
                    } else {
                        let debited = AccountState {
                            balance: Amount((s.balance.0 - (t.amount.0 + t.fee.0)) as u64),
                            nonce: (s.nonce + 1) as u64,
                            ..s
                        };
                        transfer_credit(st, put(c1, f, debited), t, loaded)
                    }
                },
            },
        },
        _ => skip_one(st, st.cache),
    }
}

/// Applying the first `n` transactions.
pub open spec fn apply_prefix(
    txs: Seq<TxModel>,
    n: nat,
    loaded: Seq<(Address, Result<AccountState, StorageError>)>,
) -> ApplyOutcome
    decreases n,
{
    if n == 0 {
        ApplyOutcome::Running(ApplyState { cache: Seq::empty(), applied: 0, skipped: 0 })
    } else {
        match apply_prefix(txs, (n - 1) as nat, loaded) {
            ApplyOutcome::Running(st) => apply_tx(st, txs[n - 1], loaded),
            o => o,
        }
    }
}

/// Applying all the transactions, with the store's answers in `loaded`.
pub open spec fn apply_txs(
    txs: Seq<TxModel>,
    loaded: Seq<(Address, Result<AccountState, StorageError>)>,
) -> ApplyOutcome {
    apply_prefix(txs, txs.len(), loaded)
}

/// Each transaction that is gone through is counted once, as applied or
/// as skipped: while applying runs, the two counts add up to the number of
/// transactions gone through, so a finished block counts all of its own.
pub proof fn lemma_every_transaction_counted(
    txs: Seq<TxModel>,
    n: nat,
    loaded: Seq<(Address, Result<AccountState, StorageError>)>,
)
    ensures
        apply_prefix(txs, n, loaded) matches ApplyOutcome::Running(st) ==> st.applied + st.skipped
            == n,
    decreases n,
{
    if n > 0 {
        lemma_every_transaction_counted(txs, (n - 1) as nat, loaded);
    }
}

/// Once applying has stopped, later transactions change nothing.
proof fn lemma_prefix_stopped(
    txs: Seq<TxModel>,
    n: nat,
    m: nat,
    loaded: Seq<(Address, Result<AccountState, StorageError>)>,
)
    requires
        n <= m,
        !(apply_prefix(txs, n, loaded) is Running),
    ensures
        apply_prefix(txs, m, loaded) == apply_prefix(txs, n, loaded),
    decreases m - n,
{
    if m > n {
        lemma_prefix_stopped(txs, n, (m - 1) as nat, loaded);
    }
}

proof fn lemma_source_extend(
    c: Seq<(Address, AccountState)>,
    loaded: Seq<(Address, Result<AccountState, StorageError>)>,
    more: Seq<(Address, Result<AccountState, StorageError>)>,
    a: Address,
)
    ensures
        account_source(c, loaded, a) is Some ==> account_source(c, loaded + more, a)
            == account_source(c, loaded, a),
{
    if lookup(c, a) is None && lookup(loaded, a) is Some {
        lemma_lookup_extend(loaded, more, a);
    }
}

proof fn lemma_tx_extend(
    st: ApplyState,
    t: TxModel,
    loaded: Seq<(Address, Result<AccountState, StorageError>)>,
    more: Seq<(Address, Result<AccountState, StorageError>)>,
)
    requires
        !(apply_tx(st, t, loaded) is Need),
    ensures
        apply_tx(st, t, loaded + more) == apply_tx(st, t, loaded),
{
    lemma_source_extend(st.cache, loaded, more, t.to);
    if let Some(f) = t.from {
        lemma_source_extend(st.cache, loaded, more, f);
        if let Some(Ok(s)) = account_source(st.cache, loaded, f) {
            let c1 = put(st.cache, f, s);
            let debited = AccountState {
                balance: Amount((s.balance.0 - (t.amount.0 + t.fee.0)) as u64),
                nonce: (s.nonce + 1) as u64,
                ..s
            };
            lemma_source_extend(put(c1, f, debited), loaded, more, t.to);
        }
    }
}

proof fn lemma_prefix_extend(
    txs: Seq<TxModel>,
    n: nat,
    loaded: Seq<(Address, Result<AccountState, StorageError>)>,
    more: Seq<(Address, Result<AccountState, StorageError>)>,
)
    requires
        n <= txs.len(),
        !(apply_prefix(txs, n, loaded) is Need),
    ensures
        apply_prefix(txs, n, loaded + more) == apply_prefix(txs, n, loaded),
    decreases n,
{
    if n > 0 {
        let p = apply_prefix(txs, (n - 1) as nat, loaded);
        lemma_prefix_extend(txs, (n - 1) as nat, loaded, more);
        if let ApplyOutcome::Running(st) = p {
            lemma_tx_extend(st, txs[n - 1], loaded, more);
        }
    }
}

/// More answers from the store never change an outcome that asked for
/// none: the caller's loop of reads ends in what the full store gives.
pub proof fn lemma_more_answers_change_nothing(
    txs: Seq<TxModel>,
    loaded: Seq<(Address, Result<AccountState, StorageError>)>,
    more: Seq<(Address, Result<AccountState, StorageError>)>,
)
    requires
        !(apply_txs(txs, loaded) is Need),
    ensures
        apply_txs(txs, loaded + more) == apply_txs(txs, loaded),
{
    lemma_prefix_extend(txs, txs.len(), loaded, more);
}

proof fn lemma_prefix_need_unanswered(
    txs: Seq<TxModel>,
    n: nat,
    loaded: Seq<(Address, Result<AccountState, StorageError>)>,
)
    requires
        n <= txs.len(),
    ensures
        apply_prefix(txs, n, loaded) matches ApplyOutcome::Need(a) ==> lookup(loaded, a) is None,
    decreases n,
{
    if n > 0 {
        lemma_prefix_need_unanswered(txs, (n - 1) as nat, loaded);
    }
}

/// An account asked for is never one the store has answered already, so
/// each round of the caller's loop adds a new address.
pub proof fn lemma_need_is_unanswered(
    txs: Seq<TxModel>,
    loaded: Seq<(Address, Result<AccountState, StorageError>)>,
)
    ensures
        apply_txs(txs, loaded) matches ApplyOutcome::Need(a) ==> lookup(loaded, a) is None,
{
    lemma_prefix_need_unanswered(txs, txs.len(), loaded);
}

/// An applied transfer between two different accounts takes `amount +
/// fee` from the sender and counts one more transaction on it, and gives
/// `amount` to the recipient; the fee leaves both.
pub proof fn lemma_transfer_effect(
    st: ApplyState,
    t: TxModel,
    loaded: Seq<(Address, Result<AccountState, StorageError>)>,
)
    requires
        t.kind is Transfer,
        t.from is Some,
        t.from->0 != t.to,
        apply_tx(st, t, loaded) is Running,
        apply_tx(st, t, loaded)->Running_0.applied == st.applied + 1,
    ensures
        ({
            let f = t.from->0;
            let st2 = apply_tx(st, t, loaded)->Running_0;
            &&& account_source(st.cache, loaded, f) is Some
            &&& account_source(st.cache, loaded, f)->0 is Ok
            &&& account_source(st.cache, loaded, t.to) is Some
            &&& account_source(st.cache, loaded, t.to)->0 is Ok
            &&& ({
                let s = account_source(st.cache, loaded, f)->0->Ok_0;
                let r = account_source(st.cache, loaded, t.to)->0->Ok_0;
                &&& lookup(st2.cache, f) == Some(
                    AccountState {
                        balance: Amount((s.balance.0 - t.amount.0 - t.fee.0) as u64),
                        nonce: (s.nonce + 1) as u64,
                        ..s
                    },
                )
                &&& lookup(st2.cache, t.to) == Some(credited(r, t.amount))
                &&& s.balance.0 >= t.amount.0 + t.fee.0
                &&& r.balance.0 + t.amount.0 <= u64::MAX
            })
        }),
{
    let f = t.from->0;
    let s = account_source(st.cache, loaded, f)->0->Ok_0;
    let c1 = put(st.cache, f, s);
    let debited = AccountState {
        balance: Amount((s.balance.0 - (t.amount.0 + t.fee.0)) as u64),
        nonce: (s.nonce + 1) as u64,
        ..s
    };
    let c2 = put(c1, f, debited);
    lemma_lookup_put(c1, f, debited, t.to);
    lemma_lookup_put(st.cache, f, s, t.to);
    let r = account_source(c2, loaded, t.to)->0->Ok_0;
    let c3 = put(c2, t.to, r);
    lemma_lookup_put(c3, t.to, credited(r, t.amount), f);
    lemma_lookup_put(c2, t.to, r, f);
    lemma_lookup_put(c1, f, debited, f);
    lemma_lookup_put(c3, t.to, credited(r, t.amount), t.to);
}

/// A transfer skipped for a wrong nonce or a short balance changes no
/// account: the sender's state is only cached as read.
pub proof fn lemma_skipped_transfer_changes_nothing(
    st: ApplyState,
    t: TxModel,
    loaded: Seq<(Address, Result<AccountState, StorageError>)>,
)
    requires
        t.kind is Transfer,
        t.from is Some,
        account_source(st.cache, loaded, t.from->0) is Some,
        account_source(st.cache, loaded, t.from->0)->0 is Ok,
        t.amount.0 + t.fee.0 <= u64::MAX,
        t.nonce != account_source(st.cache, loaded, t.from->0)->0->Ok_0.nonce
            || account_source(st.cache, loaded, t.from->0)->0->Ok_0.balance.0 < t.amount.0 + t.fee.0,
    ensures
        ({
            let f = t.from->0;
            let s = account_source(st.cache, loaded, f)->0->Ok_0;
            &&& apply_tx(st, t, loaded) is Running
            &&& apply_tx(st, t, loaded)->Running_0.applied == st.applied
            &&& apply_tx(st, t, loaded)->Running_0.skipped == st.skipped + 1
            &&& forall|q: Address|
                #[trigger] lookup(apply_tx(st, t, loaded)->Running_0.cache, q) == (if q == f {
                    Some(s)
                } else {
                    lookup(st.cache, q)
                })
        }),
{
    let f = t.from->0;
    let s = account_source(st.cache, loaded, f)->0->Ok_0;
    assert forall|q: Address| #[trigger] lookup(put(st.cache, f, s), q) == (if q == f {
        Some(s)
    } else {
        lookup(st.cache, q)
    }) by {
        lemma_lookup_put(st.cache, f, s, q);
    }
}

/// An applied coinbase credits its amount to the recipient, on an empty
/// account where the store could not be read.
pub proof fn lemma_coinbase_effect(
    st: ApplyState,
    t: TxModel,
    loaded: Seq<(Address, Result<AccountState, StorageError>)>,
)
    requires
        t.kind is Coinbase,
        apply_tx(st, t, loaded) is Running,
        apply_tx(st, t, loaded)->Running_0.applied == st.applied + 1,
    ensures
        ({
            let st2 = apply_tx(st, t, loaded)->Running_0;
            let s = match account_source(st.cache, loaded, t.to)->0 {
                Ok(s) => s,
                Err(_) => empty_account(),
            };
            lookup(st2.cache, t.to) == Some(credited(s, t.amount))
        }),
{
    let s = match account_source(st.cache, loaded, t.to)->0 {
        Ok(s) => s,
        Err(_) => empty_account(),
    };
    let c1 = put(st.cache, t.to, s);
    lemma_lookup_put(c1, t.to, credited(s, t.amount), t.to);
}

/// A coinbase whose credit fits is always applied, whatever the
/// recipient held before: the recipient (as read, or an empty account
/// where the store could not be read) gains exactly the amount, keeps its
/// nonce and contract fields, and no other account changes.
pub proof fn lemma_coinbase_applied_when_credit_fits(
    st: ApplyState,
    t: TxModel,
    loaded: Seq<(Address, Result<AccountState, StorageError>)>,
)
    requires
        t.kind is Coinbase,
        account_source(st.cache, loaded, t.to) is Some,
        (match account_source(st.cache, loaded, t.to)->0 {
            Ok(s) => s,
            Err(_) => empty_account(),
        }).balance.0 + t.amount.0 <= u64::MAX,
    ensures
        ({
            let s = match account_source(st.cache, loaded, t.to)->0 {
                Ok(s) => s,
                Err(_) => empty_account(),
            };
            let st2 = apply_tx(st, t, loaded)->Running_0;
            &&& apply_tx(st, t, loaded) is Running
            &&& st2.applied == st.applied + 1
            &&& st2.skipped == st.skipped
            &&& lookup(st2.cache, t.to) matches Some(a) && a.balance.0 == s.balance.0 + t.amount.0
                && a.nonce == s.nonce && a.code_hash == s.code_hash && a.storage_root
                == s.storage_root
            &&& forall|q: Address| q != t.to ==> #[trigger] lookup(st2.cache, q) == lookup(st.cache, q)
        }),
{
    let s = match account_source(st.cache, loaded, t.to)->0 {
        Ok(s) => s,
        Err(_) => empty_account(),
    };
    let c1 = put(st.cache, t.to, s);
    let c2 = put(c1, t.to, credited(s, t.amount));
    lemma_lookup_put(c1, t.to, credited(s, t.amount), t.to);
    assert forall|q: Address| q != t.to implies #[trigger] lookup(c2, q) == lookup(st.cache, q) by {
        lemma_lookup_put(c1, t.to, credited(s, t.amount), q);
        lemma_lookup_put(st.cache, t.to, s, q);
    }
}

/// A transfer between two accounts is applied whenever its checks pass:
/// the sender is readable, carries the transfer's nonce, can pay `amount +
/// fee` and can count one more transaction, and the recipient is readable
/// and can take the amount. Then the sender pays exactly `amount + fee`
/// and counts one more transaction, the recipient gains exactly `amount`,
/// and no other account changes.
pub proof fn lemma_transfer_applied_when_checks_pass(
    st: ApplyState,
    t: TxModel,
    loaded: Seq<(Address, Result<AccountState, StorageError>)>,
)
    requires
        t.kind is Transfer,
        t.from is Some,
        t.from->0 != t.to,
        account_source(st.cache, loaded, t.from->0) matches Some(Ok(s)) && s.nonce == t.nonce
            && t.amount.0 + t.fee.0 <= s.balance.0 && s.nonce < u64::MAX,
        account_source(st.cache, loaded, t.to) matches Some(Ok(r)) && r.balance.0 + t.amount.0
            <= u64::MAX,
    ensures
        ({
            let f = t.from->0;
            let s = account_source(st.cache, loaded, f)->0->Ok_0;
            let r = account_source(st.cache, loaded, t.to)->0->Ok_0;
            let st2 = apply_tx(st, t, loaded)->Running_0;
            &&& apply_tx(st, t, loaded) is Running
            &&& st2.applied == st.applied + 1
            &&& st2.skipped == st.skipped
            &&& lookup(st2.cache, f) matches Some(a) && a.balance.0 == s.balance.0 - t.amount.0
                - t.fee.0 && a.nonce == s.nonce + 1 && a.code_hash == s.code_hash
                && a.storage_root == s.storage_root
            &&& lookup(st2.cache, t.to) matches Some(b) && b.balance.0 == r.balance.0 + t.amount.0
                && b.nonce == r.nonce && b.code_hash == r.code_hash && b.storage_root
                == r.storage_root
            &&& forall|q: Address|
                q != f && q != t.to ==> #[trigger] lookup(st2.cache, q) == lookup(st.cache, q)
        }),
{
    let f = t.from->0;
    let s = account_source(st.cache, loaded, f)->0->Ok_0;
    let c1 = put(st.cache, f, s);
    let debited = AccountState {
        balance: Amount((s.balance.0 - (t.amount.0 + t.fee.0)) as u64),
        nonce: (s.nonce + 1) as u64,
        ..s
    };
    let c2 = put(c1, f, debited);
    lemma_lookup_put(c1, f, debited, t.to);
    lemma_lookup_put(st.cache, f, s, t.to);
    assert(account_source(c2, loaded, t.to) == account_source(st.cache, loaded, t.to));
    let r = account_source(c2, loaded, t.to)->0->Ok_0;
    let c3 = put(c2, t.to, r);
    let c4 = put(c3, t.to, credited(r, t.amount));
    lemma_lookup_put(c3, t.to, credited(r, t.amount), f);
    lemma_lookup_put(c2, t.to, r, f);
    lemma_lookup_put(c1, f, debited, f);
    lemma_lookup_put(c3, t.to, credited(r, t.amount), t.to);
    assert forall|q: Address| q != f && q != t.to implies #[trigger] lookup(c4, q) == lookup(
        st.cache,
        q,
    ) by {
        lemma_lookup_put(c3, t.to, credited(r, t.amount), q);
        lemma_lookup_put(c2, t.to, r, q);
        lemma_lookup_put(c1, f, debited, q);
        lemma_lookup_put(st.cache, f, s, q);
    }
}

/// Contract calls and deployments, and transfers without a sender, are
/// skipped: counted once as skipped, with every account as it was.
pub proof fn lemma_unpayable_transactions_skipped(
    st: ApplyState,
    t: TxModel,
    loaded: Seq<(Address, Result<AccountState, StorageError>)>,
)
    requires
        !(t.kind is Coinbase),
        t.kind is Transfer ==> t.from is None,
    ensures
        apply_tx(st, t, loaded) is Running,
        apply_tx(st, t, loaded)->Running_0.applied == st.applied,
        apply_tx(st, t, loaded)->Running_0.skipped == st.skipped + 1,
        apply_tx(st, t, loaded)->Running_0.cache == st.cache,
{
}

/// The index of the first pair whose key is `a`.
fn find_key<V>(v: &[(Address, V)], a: &Address) -> (r: Option<usize>)
    ensures
        match r {
            Some(i) => i < v@.len() && v@[i as int].0 == *a && forall|j: int|
                0 <= j < i ==> v@[j].0 != *a,
            None => forall|j: int| 0 <= j < v@.len() ==> v@[j].0 != *a,
        },
{
    let mut i: usize = 0;
    while i < v.len()
        invariant
            i <= v@.len(),
            forall|j: int| 0 <= j < i ==> v@[j].0 != *a,
        decreases v@.len() - i,
    {
        if v[i].0.same_as(a) {
            return Some(i);
        }
        i = i + 1;
    }
    None
}

fn clone_answer(r: &Result<AccountState, StorageError>) -> (c: Result<AccountState, StorageError>)
    ensures
        c == *r,
{
    match r {
        Ok(s) => Ok(s.clone()),
        Err(e) => Err(e.clone()),
    }
}

/// The account state for `a` as `account_source` gives it.
fn get_source(
    cache: &Vec<(Address, AccountState)>,
    loaded: &[(Address, Result<AccountState, StorageError>)],
    a: &Address,
) -> (r: Option<Result<AccountState, StorageError>>)
    ensures
        r == account_source(cache@, loaded@, *a),
{
    match find_key(cache.as_slice(), a) {
        Some(i) => {
            proof {
                lemma_put_at(cache@, *a, cache@[i as int].1, i as int);
            }
            Some(Ok(cache[i].1.clone()))
        },
        None => {
            proof {
                lemma_put_absent(cache@, *a, empty_account());
            }
            match find_key(loaded, a) {
                Some(j) => {
                    proof {
                        lemma_put_at(loaded@, *a, loaded@[j as int].1, j as int);
                    }
                    Some(clone_answer(&loaded[j].1))
                },
                None => {
                    proof {
                        lemma_put_absent(loaded@, *a, Err(StorageError::Overflow));
                    }
                    None
                },
            }
        },
    }
}

/// Sets the state of `a` in the cache.
fn cache_put(cache: &mut Vec<(Address, AccountState)>, a: Address, s: AccountState)
    ensures
        final(cache)@ == put(old(cache)@, a, s),
{
    match find_key(cache.as_slice(), &a) {
        Some(i) => {
            proof {
                lemma_put_at(cache@, a, s, i as int);
            }
            cache.set(i, (a, s));
        },
        None => {
            proof {
                lemma_put_absent(cache@, a, s);
            }
            cache.push((a, s));
        },
    }
}

/// The state of applying in progress.
struct Applying {
    cache: Vec<(Address, AccountState)>,
    applied: usize,
    skipped: usize,
}

impl Applying {
    spec fn model(&self) -> ApplyState {
        ApplyState { cache: self.cache@, applied: self.applied as nat, skipped: self.skipped as nat }
    }
}

/// Why applying stopped early.
enum Halt {
    Need(Address),
    Fail(StorageError),
}

/// Credits the recipient of a transfer once the sender is debited.
fn credit_recipient(
    st: &mut Applying,
    t: &Transaction,
    loaded: &[(Address, Result<AccountState, StorageError>)],
    Ghost(st0): Ghost<ApplyState>,
) -> (r: Option<Halt>)
    requires
        st0.applied == old(st).applied,
        st0.skipped == old(st).skipped,
        old(st).applied + old(st).skipped < usize::MAX,
    ensures
        match transfer_credit(st0, old(st).cache@, t@, loaded@) {
            ApplyOutcome::Need(a) => r == Some(Halt::Need(a)),
            ApplyOutcome::Failed(e) => r == Some(Halt::Fail(e)),
            ApplyOutcome::Running(m) => r is None && final(st).model() == m,
        },
{
    match get_source(&st.cache, loaded, &t.to) {
        None => Some(Halt::Need(t.to)),
        Some(Err(e)) => Some(Halt::Fail(e)),
        Some(Ok(r)) => {
            let mut r2 = r.clone();
            cache_put(&mut st.cache, t.to, r);
            match r2.credit(t.amount) {
                Ok(()) => {
                    cache_put(&mut st.cache, t.to, r2);
                    st.applied = st.applied + 1;
                },
                Err(_) => {
                    st.skipped = st.skipped + 1;
                },
            }
            None
        },
    }
}

/// Applies one transaction, as `apply_tx` says.
fn apply_one(
    st: &mut Applying,
    t: &Transaction,
    loaded: &[(Address, Result<AccountState, StorageError>)],
) -> (r: Option<Halt>)
    requires
        old(st).applied + old(st).skipped < usize::MAX,
    ensures
        match apply_tx(old(st).model(), t@, loaded@) {
            ApplyOutcome::Need(a) => r == Some(Halt::Need(a)),
            ApplyOutcome::Failed(e) => r == Some(Halt::Fail(e)),
            ApplyOutcome::Running(m) => r is None && final(st).model() == m,
        },
{
    let ghost st0 = st.model();
    match &t.kind {
        TxKind::Coinbase => {
            match get_source(&st.cache, loaded, &t.to) {
                None => Some(Halt::Need(t.to)),
                Some(res) => {
                    let s = match res {
                        Ok(s) => s,
                        Err(_) => AccountState::default(),
                    };
                    let mut s2 = s.clone();
                    cache_put(&mut st.cache, t.to, s);
                    match s2.credit(t.amount) {
                        Ok(()) => {
                            cache_put(&mut st.cache, t.to, s2);
                            st.applied = st.applied + 1;
                        },
                        Err(_) => {
                            st.skipped = st.skipped + 1;
                        },
                    }
                    None
                },
            }
        },
        TxKind::Transfer => {
            let f = match t.from {
                Some(f) => f,
                None => {
                    st.skipped = st.skipped + 1;
                    return None;
                },
            };
            match get_source(&st.cache, loaded, &f) {
                None => Some(Halt::Need(f)),
                Some(Err(e)) => Some(Halt::Fail(e)),
                Some(Ok(s)) => {
                    let mut sender = s.clone();
                    cache_put(&mut st.cache, f, s);
                    let total = match t.amount.checked_add(t.fee) {
                        Some(v) => v,
                        None => {
                            return Some(Halt::Fail(StorageError::Overflow));
                        },
                    };
                    if t.nonce != sender.nonce {
                        st.skipped = st.skipped + 1;
                        return None;
                    }
                    match sender.debit(total) {
                        Ok(()) => {},
                        Err(_) => {
                            st.skipped = st.skipped + 1;
                            return None;
                        },
                    }
                    if sender.nonce == u64::MAX {
                        return Some(Halt::Fail(StorageError::Overflow));
                    }
                    sender.increment_nonce();
                    cache_put(&mut st.cache, f, sender);
                    credit_recipient(st, t, loaded, Ghost(st0))
                },
            }
        },
        _ => {
            st.skipped = st.skipped + 1;
            None
        },
    }
}

/// Applies the transactions of a block to the accounts.
///
/// `loaded` holds the store's answers so far: for each address asked for,
/// the account state read, or the error the read gave. A coinbase whose
/// recipient could not be read starts from an empty account; a transfer
/// whose sender or recipient could not be read fails with that error. A
/// transfer whose `amount + fee` overflows fails with `Overflow`, as does
/// one that would take the sender's nonce past `u64::MAX`.
pub fn apply_transactions(
    txs: &[Transaction],
    loaded: &[(Address, Result<AccountState, StorageError>)],
) -> (r: Result<ApplyStep, StorageError>)
    ensures
        match apply_txs(txs_view(txs@), loaded@) {
            ApplyOutcome::Need(a) => r matches Ok(ApplyStep::NeedAccount(x)) && x == a,
            ApplyOutcome::Failed(e) => r == Err::<ApplyStep, StorageError>(e),
            ApplyOutcome::Running(st) => r matches Ok(ApplyStep::Ready { result, accounts })
                && accounts@ == st.cache && result.txs_applied == st.applied
                && result.txs_skipped == st.skipped,
        },
        r matches Ok(ApplyStep::Ready { result, .. }) ==> result.txs_applied + result.txs_skipped
            == txs@.len(),
{
    let ghost tv = txs_view(txs@);
    let mut st = Applying { cache: Vec::new(), applied: 0, skipped: 0 };
    let mut i: usize = 0;
    while i < txs.len()
        invariant
            i <= txs@.len(),
            tv == txs_view(txs@),
            tv.len() == txs@.len(),
            st.applied + st.skipped == i,
            apply_prefix(tv, i as nat, loaded@) == ApplyOutcome::Running(st.model()),
        decreases txs@.len() - i,
    {
        assert(tv[i as int] == txs@[i as int]@);
        let h = apply_one(&mut st, &txs[i], loaded);
        match h {
            Some(Halt::Need(a)) => {
                proof {
                    lemma_prefix_stopped(tv, (i + 1) as nat, tv.len(), loaded@);
                }
                return Ok(ApplyStep::NeedAccount(a));
            },
            Some(Halt::Fail(e)) => {
                proof {
                    lemma_prefix_stopped(tv, (i + 1) as nat, tv.len(), loaded@);
                }
                return Err(e);
            },
            None => {},
        }
        i = i + 1;
    }
    let result = ApplyResult { txs_applied: st.applied, txs_skipped: st.skipped };
    Ok(ApplyStep::Ready { result, accounts: st.cache })
}


/// The column families of the store.
#[derive(Debug, Clone, Copy, PartialEq, Eq, Structural)]
pub enum Column {
    /// Full blocks, keyed by `Keys::block`.
    Blocks,
    /// Headers, keyed by hash.
    Headers,
    /// The height index: height to block hash.
    Heights,
    /// Transactions, keyed by id.
    Txs,
    /// Account states, keyed by address.
    State,
    /// Metadata such as the best tip.
    Meta,
}

/// The name of each column family in the store.
pub open spec fn column_name(c: Column) -> Seq<char> {
    match c {
        Column::Blocks => "blocks"@,
        Column::Headers => "headers"@,
        Column::Heights => "heights"@,
        Column::Txs => "txs"@,
        Column::State => "state"@,
        Column::Meta => "meta"@,
    }
}

impl Column {
    /// The name of the column family.
    pub fn name(&self) -> (r: &'static str)
        ensures
            r@ == column_name(*self),
    {
        match self {
            Column::Blocks => "blocks",
            Column::Headers => "headers",
            Column::Heights => "heights",
            Column::Txs => "txs",
            Column::State => "state",
            Column::Meta => "meta",
        }
    }
}

/// One write of a batch: a value under a key in a column family.
#[derive(Debug)]
pub struct BatchPut {
    pub column: Column,
    pub key: Vec<u8>,
    pub value: Vec<u8>,
}

/// The value of a write.
pub struct PutModel {
    pub column: Column,
    pub key: Seq<u8>,
    pub value: Seq<u8>,
}

impl View for BatchPut {
    type V = PutModel;

    open spec fn view(&self) -> PutModel {
        PutModel { column: self.column, key: self.key@, value: self.value@ }
    }
}

/// The values of a list of writes.
pub open spec fn puts_view(v: Seq<BatchPut>) -> Seq<PutModel> {
    v.map_values(|p: BatchPut| p@)
}

/// The metadata key of the best tip's hash.
pub open spec fn tip_hash_key() -> Seq<u8> {
    lit("best_tip_hash")
}

/// The metadata key of the best tip's height.
pub open spec fn tip_height_key() -> Seq<u8> {
    lit("best_tip_height")
}

/// Storing a block: the block under its block key, the header under the
/// hash, and the hash under the height.
pub open spec fn block_puts(b: BlockModel, hash: Seq<u8>) -> Seq<PutModel> {
    seq![
        PutModel { column: Column::Blocks, key: block_key(hash), value: json_block(b) },
        PutModel { column: Column::Headers, key: hash, value: json_header(b.header) },
        PutModel { column: Column::Heights, key: be_bytes(b.header.height.0), value: hash },
    ]
}

/// Each transaction under its id.
pub open spec fn tx_puts(txs: Seq<TxModel>) -> Seq<PutModel> {
    Seq::new(
        txs.len(),
        |i: int| PutModel { column: Column::Txs, key: tx_id_spec(txs[i]), value: json_tx(txs[i]) },
    )
}

/// Each account state under its address.
pub open spec fn account_puts(a: Seq<(Address, AccountState)>) -> Seq<PutModel> {
    Seq::new(
        a.len(),
        |i: int| PutModel { column: Column::State, key: a[i].0@, value: json_account(a[i].1) },
    )
}

/// The best tip: its hash and its big-endian height.
pub open spec fn tip_puts(hash: Seq<u8>, height: u64) -> Seq<PutModel> {
    seq![
        PutModel { column: Column::Meta, key: tip_hash_key(), value: hash },
        PutModel { column: Column::Meta, key: tip_height_key(), value: be_bytes(height) },
    ]
}

/// Everything that applying a block writes, in one atomic batch.
pub open spec fn commit_puts(b: BlockModel, accounts: Seq<(Address, AccountState)>) -> Seq<PutModel> {
    let hash = header_hash_spec(b.header);
    block_puts(b, hash) + tx_puts(b.transactions) + account_puts(accounts) + tip_puts(
        hash,
        b.header.height.0,
    )
}

fn bytes_vec(data: &[u8]) -> (r: Vec<u8>)
    ensures
        r@ == data@,
{
    vstd::slice::slice_to_vec(data)
}

fn text_vec(s: &str) -> (r: Vec<u8>)
    ensures
        r@ == lit(s),
{
    let mut v: Vec<u8> = Vec::new();
    push_str(&mut v, s);
    assert(v@ =~= lit(s));
    v
}

/// Appends the writes that store a block.
fn push_block_puts(out: &mut Vec<BatchPut>, block: &Block, h: &hash::Hash)
    requires
        h@ == header_hash_spec(block.header),
    ensures
        puts_view(final(out)@) == puts_view(old(out)@) + block_puts(block@, h@),
{
    let ghost start = puts_view(out@);
    out.push(BatchPut { column: Column::Blocks, key: Keys::block(h), value: block.to_json() });
    let hk = Keys::hash(h);
    out.push(BatchPut { column: Column::Headers, key: bytes_vec(&hk), value: block.header.to_json() });
    let height_key = Keys::height(block.height());
    out.push(
        BatchPut { column: Column::Heights, key: bytes_vec(&height_key), value: bytes_vec(h.as_bytes()) },
    );
    assert(puts_view(out@) =~= start + block_puts(block@, h@));
}

/// The batch that stores a block: the block, its header and its height
/// index entry.
pub fn put_block_batch(block: &Block) -> (r: Vec<BatchPut>)
    ensures
        puts_view(r@) == block_puts(block@, header_hash_spec(block.header)),
{
    let h = block.hash();
    let mut out: Vec<BatchPut> = Vec::new();
    push_block_puts(&mut out, block, &h);
    assert(puts_view(out@) =~= block_puts(block@, h@));
    out
}

/// The batch that commits an applied block: the block, its header and
/// height index entry, each transaction, each account state, and the new
/// best tip.
pub fn apply_block_batch(block: &Block, accounts: &[(Address, AccountState)]) -> (r: Vec<BatchPut>)
    ensures
        puts_view(r@) == commit_puts(block@, accounts@),
{
    let h = block.hash();
    let ghost tv = txs_view(block.transactions@);
    let mut out: Vec<BatchPut> = Vec::new();
    push_block_puts(&mut out, block, &h);
    let ghost base = puts_view(out@);
    let mut i: usize = 0;
    while i < block.transactions.len()
        invariant
            i <= block.transactions@.len(),
            tv == txs_view(block.transactions@),
            puts_view(out@) == base + tx_puts(tv.take(i as int)),
        decreases block.transactions@.len() - i,
    {
        let t = &block.transactions[i];
        assert(tv[i as int] == t@);
        let id = t.tx_id();
        let ghost before = out@;
        out.push(BatchPut { column: Column::Txs, key: bytes_vec(id.as_bytes()), value: t.to_json() });
        assert(puts_view(out@) =~= puts_view(before).push(out@[out@.len() - 1]@));
        assert(tv.take(i + 1) =~= tv.take(i as int).push(tv[i as int]));
        assert(tx_puts(tv.take(i + 1)) =~= tx_puts(tv.take(i as int)).push(out@[out@.len() - 1]@));
        i = i + 1;
        assert(puts_view(out@) =~= base + tx_puts(tv.take(i as int)));
    }
    assert(tv.take(tv.len() as int) =~= tv);
    let ghost base2 = puts_view(out@);
    let mut j: usize = 0;
    while j < accounts.len()
        invariant
            j <= accounts@.len(),
            puts_view(out@) == base2 + account_puts(accounts@.take(j as int)),
        decreases accounts@.len() - j,
    {
        let (a, s) = &accounts[j];
        let ghost before = out@;
        out.push(BatchPut { column: Column::State, key: bytes_vec(a.as_bytes()), value: s.to_json() });
        assert(puts_view(out@) =~= puts_view(before).push(out@[out@.len() - 1]@));
        assert(accounts@.take(j + 1) =~= accounts@.take(j as int).push(accounts@[j as int]));
        assert(account_puts(accounts@.take(j + 1)) =~= account_puts(accounts@.take(j as int)).push(
            out@[out@.len() - 1]@,
        ));
        j = j + 1;
        assert(puts_view(out@) =~= base2 + account_puts(accounts@.take(j as int)));
    }
    assert(accounts@.take(accounts@.len() as int) =~= accounts@);
    let hv = bytes_vec(h.as_bytes());
    out.push(BatchPut { column: Column::Meta, key: text_vec("best_tip_hash"), value: hv });
    let height_key = Keys::height(block.height());
    out.push(
        BatchPut { column: Column::Meta, key: text_vec("best_tip_height"), value: bytes_vec(&height_key) },
    );
    assert(puts_view(out@) =~= commit_puts(block@, accounts@));
    out
}

/// What to do with a block.
#[derive(Debug)]
pub enum BlockStep {
    /// Read this account from the store and call again with the answer
    /// added.
    NeedAccount(Address),
    /// Write this batch atomically; the block is then applied.
    Commit { result: ApplyResult, batch: Vec<BatchPut> },
    /// The block is stored already: nothing to do.
    AlreadyApplied(ApplyResult),
}

/// Applies a block: a block that is stored already is applied again with
/// no effect and zero counts; otherwise its transactions are applied (see
/// `apply_transactions`) and everything is written in one batch.
pub fn apply_block(
    block: &Block,
    already_stored: bool,
    loaded: &[(Address, Result<AccountState, StorageError>)],
) -> (r: Result<BlockStep, StorageError>)
    ensures
        already_stored ==> (r matches Ok(BlockStep::AlreadyApplied(res)) && res.txs_applied == 0
            && res.txs_skipped == 0),
        !already_stored ==> match apply_txs(block@.transactions, loaded@) {
            ApplyOutcome::Need(a) => r matches Ok(BlockStep::NeedAccount(x)) && x == a,
            ApplyOutcome::Failed(e) => r == Err::<BlockStep, StorageError>(e),
            ApplyOutcome::Running(st) => r matches Ok(BlockStep::Commit { result, batch })
                && puts_view(batch@) == commit_puts(block@, st.cache) && result.txs_applied
                == st.applied && result.txs_skipped == st.skipped,
        },
        r matches Ok(BlockStep::Commit { result, .. }) ==> result.txs_applied + result.txs_skipped
            == block.transactions@.len(),
{
    if already_stored {
        return Ok(BlockStep::AlreadyApplied(ApplyResult { txs_applied: 0, txs_skipped: 0 }));
    }
    match apply_transactions(block.transactions.as_slice(), loaded) {
        Err(e) => Err(e),
        Ok(ApplyStep::NeedAccount(a)) => Ok(BlockStep::NeedAccount(a)),
        Ok(ApplyStep::Ready { result, accounts }) => {
            let batch = apply_block_batch(block, accounts.as_slice());
            Ok(BlockStep::Commit { result, batch })
        },
    }
}

/// The best tip that the metadata values stand for, where both have the
/// right length.
pub open spec fn decoded_tip(hash_bytes: Seq<u8>, height_bytes: Seq<u8>) -> Option<(Seq<u8>, u64)> {
    if hash_bytes.len() == 32 && height_bytes.len() == 8 {
        Some((hash_bytes, be_value(height_bytes)))
    } else {
        None
    }
}

/// Reads the best tip from the two metadata values: `None` where either is
/// missing, `Corruption` where either has the wrong length.
pub fn decode_best_tip(hash_bytes: Option<Vec<u8>>, height_bytes: Option<Vec<u8>>) -> (r: Result<
    Option<(hash::Hash, BlockHeight)>,
    StorageError,
>)
    ensures
        match (hash_bytes, height_bytes) {
            (Some(hb), Some(tb)) => match decoded_tip(hb@, tb@) {
                Some((h, n)) => r matches Ok(Some((x, y))) && x@ == h && y.0 == n,
                None => r matches Err(StorageError::Corruption(m)) && m@
                    == "invalid best_tip metadata"@,
            },
            _ => r matches Ok(None),
        },
{
    let hb = match hash_bytes {
        Some(b) => b,
        None => return Ok(None),
    };
    let tb = match height_bytes {
        Some(b) => b,
        None => return Ok(None),
    };
    if hb.len() != 32 || tb.len() != 8 {
        return Err(StorageError::Corruption(String::from_str("invalid best_tip metadata")));
    }
    let mut arr = [0u8; 32];
    let mut i: usize = 0;
    while i < 32
        invariant
            i <= 32,
            hb@.len() == 32,
            forall|k: int| 0 <= k < i ==> arr@[k] == hb@[k],
        decreases 32 - i,
    {
        arr[i] = hb[i];
        i = i + 1;
    }
    assert(arr@ =~= hb@);
    let h8 = [tb[0], tb[1], tb[2], tb[3], tb[4], tb[5], tb[6], tb[7]];
    assert(h8@ =~= tb@);
    let height = be_decode(&h8);
    Ok(Some((hash::Hash::from_bytes(arr), BlockHeight(height))))
}

/// Reads a block hash from the height index: `Corruption` where the value
/// is not 32 bytes long.
pub fn hash_from_index(bytes: &[u8]) -> (r: Result<hash::Hash, StorageError>)
    ensures
        bytes@.len() == 32 ==> (r matches Ok(h) && h@ == bytes@),
        bytes@.len() != 32 ==> (r matches Err(StorageError::Corruption(m)) && m@
            == "invalid hash length"@),
{
    if bytes.len() != 32 {
        return Err(StorageError::Corruption(String::from_str("invalid hash length")));
    }
    let mut arr = [0u8; 32];
    let mut i: usize = 0;
    while i < 32
        invariant
            i <= 32,
            bytes@.len() == 32,
            forall|k: int| 0 <= k < i ==> arr@[k] == bytes@[k],
        decreases 32 - i,
    {
        arr[i] = bytes[i];
        i = i + 1;
    }
    assert(arr@ =~= bytes@);
    Ok(hash::Hash::from_bytes(arr))
}

/// The best tip that a committed batch writes reads back as the block's
/// hash and height.
pub proof fn lemma_best_tip_roundtrip(
    b: BlockModel,
    accounts: Seq<(Address, AccountState)>,
    h: hash::Hash,
)
    requires
        h@ == header_hash_spec(b.header),
    ensures
        ({
            let p = commit_puts(b, accounts);
            let n = p.len();
            &&& p[n - 2].column == Column::Meta
            &&& p[n - 2].key == tip_hash_key()
            &&& p[n - 1].column == Column::Meta
            &&& p[n - 1].key == tip_height_key()
            &&& decoded_tip(p[n - 2].value, p[n - 1].value) == Some(
                (h@, b.header.height.0),
            )
        }),
{
    let hash = header_hash_spec(b.header);
    let p = commit_puts(b, accounts);
    let q = block_puts(b, hash) + tx_puts(b.transactions) + account_puts(accounts);
    assert(p == q + tip_puts(hash, b.header.height.0));
    lemma_height_key_roundtrip(b.header.height.0);
}

} // verus!
