//! The state of one account.
use crate::primitives::json::{dec, json_string, lit, push_dec, push_json_string, push_str};
use crate::primitives::types::Amount;
use crate::storage::error::StorageError;
use vstd::prelude::*;

verus! {

/// The state of an account: its balance, the number of transactions it has
/// sent, and, for a contract, the hash of its code and its storage root.
#[derive(Debug, PartialEq, Eq)]
pub struct AccountState {
    /// Balance in rustoshi.
    pub balance: Amount,
    /// The number of transactions sent; a transfer must carry exactly this
    /// nonce.
    pub nonce: u64,
    /// For a contract, the hash of its code.
    pub code_hash: Option<String>,
    /// For a contract, the root of its storage.
    pub storage_root: Option<String>,
}

/// The state of an account that was never written: nothing in it.
pub open spec fn empty_account() -> AccountState {
    AccountState { balance: Amount(0), nonce: 0, code_hash: None, storage_root: None }
}

/// An optional text as JSON: `null`, or the quoted text.
pub open spec fn json_opt_text(o: Option<String>) -> Seq<u8> {
    match o {
        None => lit("null"),
        Some(s) => json_string(vstd::utf8::encode_utf8(s@)),
    }
}

/// The JSON encoding of an account state.
pub open spec fn json_account(a: AccountState) -> Seq<u8> {
    lit("{\"balance\":") + dec(a.balance.0 as nat) + lit(",\"nonce\":") + dec(a.nonce as nat) + lit(
        ",\"code_hash\":",
    ) + json_opt_text(a.code_hash) + lit(",\"storage_root\":") + json_opt_text(a.storage_root)
        + lit("}")
}

fn clone_opt_string(o: &Option<String>) -> (r: Option<String>)
    ensures
        r == *o,
{
    match o {
        Some(s) => Some(s.clone()),
        None => None,
    }
}

fn push_opt_text(out: &mut Vec<u8>, o: &Option<String>)
    ensures
        final(out)@ == old(out)@ + json_opt_text(*o),
{
    match o {
        None => push_str(out, "null"),
        Some(s) => {
            let b = s.as_str().as_bytes();
            push_json_string(out, b);
        },
    }
}

impl Clone for AccountState {
    fn clone(&self) -> (r: Self)
        ensures
            r == *self,
    {
        AccountState {
            balance: self.balance,
            nonce: self.nonce,
            code_hash: clone_opt_string(&self.code_hash),
            storage_root: clone_opt_string(&self.storage_root),
        }
    }
}

impl Default for AccountState {
    fn default() -> (r: Self)
        ensures
            r == empty_account(),
    {
        AccountState { balance: Amount(0), nonce: 0, code_hash: None, storage_root: None }
    }
}

impl AccountState {
    /// Takes `amount` off the balance; fails with `InsufficientBalance`,
    /// leaving the account unchanged, where the balance is smaller.
    pub fn debit(&mut self, amount: Amount) -> (r: Result<(), StorageError>)
        ensures
            old(self).balance.0 >= amount.0 ==> r is Ok && *final(self) == (AccountState {
                balance: Amount((old(self).balance.0 - amount.0) as u64),
                ..*old(self)
            }),
            old(self).balance.0 < amount.0 ==> r == Err::<(), StorageError>(
                StorageError::InsufficientBalance,
            ) && *final(self) == *old(self),
    {
        match self.balance.checked_sub(amount) {
            Some(b) => {
                self.balance = b;
                Ok(())
            },
            None => Err(StorageError::InsufficientBalance),
        }
    }

    /// Adds `amount` to the balance; fails with `Overflow`, leaving the
    /// account unchanged, where the sum does not fit in 64 bits.
    pub fn credit(&mut self, amount: Amount) -> (r: Result<(), StorageError>)
        ensures
            old(self).balance.0 + amount.0 <= u64::MAX ==> r is Ok && *final(self) == (
            AccountState { balance: Amount((old(self).balance.0 + amount.0) as u64), ..*old(self) }),
            old(self).balance.0 + amount.0 > u64::MAX ==> r == Err::<(), StorageError>(
                StorageError::Overflow,
            ) && *final(self) == *old(self),
    {
        match self.balance.checked_add(amount) {
            Some(b) => {
                self.balance = b;
                Ok(())
            },
            None => Err(StorageError::Overflow),
        }
    }

    /// Counts one more sent transaction.
    pub fn increment_nonce(&mut self)
        requires
            old(self).nonce < u64::MAX,
        ensures
            *final(self) == (AccountState { nonce: (old(self).nonce + 1) as u64, ..*old(self) }),
    {
        self.nonce = self.nonce + 1;
    }

    /// Whether the account is a contract: whether it has a code hash.
    pub fn is_contract(&self) -> (r: bool)
        ensures
            r == self.code_hash is Some,
    {
        self.code_hash.is_some()
    }

    /// The JSON encoding under which the state is stored.
    pub fn to_json(&self) -> (r: Vec<u8>)
        ensures
            r@ == json_account(*self),
    {
        let mut out: Vec<u8> = Vec::new();
        push_str(&mut out, "{\"balance\":");
        push_dec(&mut out, self.balance.0);
        push_str(&mut out, ",\"nonce\":");
        push_dec(&mut out, self.nonce);
        push_str(&mut out, ",\"code_hash\":");
        push_opt_text(&mut out, &self.code_hash);
        push_str(&mut out, ",\"storage_root\":");
        push_opt_text(&mut out, &self.storage_root);
        push_str(&mut out, "}");
        assert(out@ =~= json_account(*self));
        out
    }
}

} // verus!
