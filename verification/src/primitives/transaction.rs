//! Transactions: signed transfers of coins, coinbase rewards and contract
//! calls.
use crate::primitives::error::PrimitivesError;
use crate::primitives::hash;
use crate::primitives::hash::sha256d_spec;
use crate::primitives::json::{
    dec, json_bytes, json_null, json_opt_bytes, json_string, lit, push_bytes, push_dec,
    push_json_string, push_opt_bytes, push_str,
};
use crate::primitives::types::{Address, Amount, Timestamp};
use vstd::prelude::*;
use vstd::string::StringSliceAdditionalSpecFns;

verus! {

/// A transaction id: the double SHA-256 of the transaction's JSON text.
pub type TxId = hash::Hash;

/// The kind of a transaction.
#[derive(Debug, PartialEq, Eq)]
pub enum TxKind {
    /// An ordinary transfer of coins.
    Transfer,
    /// The reward to the miner (no sender).
    Coinbase,
    /// A call of a smart contract.
    ContractCall {
        /// Address of the contract.
        contract: Address,
        /// Name of the function called.
        method: String,
        /// ABI-encoded arguments.
        args: Vec<u8>,
        /// Gas limit.
        gas_limit: u64,
    },
    /// The deployment of a new smart contract.
    ContractDeploy {
        /// WASM bytecode of the contract.
        bytecode: Vec<u8>,
        /// Arguments of the constructor.
        init_args: Vec<u8>,
        /// Gas limit.
        gas_limit: u64,
    },
}

/// A transaction.
#[derive(Debug, PartialEq, Eq)]
pub struct Transaction {
    /// Format version.
    pub version: u8,
    /// Kind of transaction.
    pub kind: TxKind,
    /// Sender (`None` for a coinbase).
    pub from: Option<Address>,
    /// Recipient.
    pub to: Address,
    /// Amount transferred.
    pub amount: Amount,
    /// Fee to the miner.
    pub fee: Amount,
    /// Sender's nonce (against replay).
    pub nonce: u64,
    /// Time of creation.
    pub timestamp: Timestamp,
    /// Ed25519 signature (64 bytes).
    pub signature: Option<Vec<u8>>,
    /// Public key (32 bytes) that checks the signature.
    pub public_key: Option<Vec<u8>>,
}

/// The value of a `TxKind`, with byte vectors taken as sequences.
pub enum TxKindModel {
    Transfer,
    Coinbase,
    ContractCall { contract: Address, method: Seq<char>, args: Seq<u8>, gas_limit: u64 },
    ContractDeploy { bytecode: Seq<u8>, init_args: Seq<u8>, gas_limit: u64 },
}

/// The value of a `Transaction`, with byte vectors taken as sequences.
pub struct TxModel {
    pub version: u8,
    pub kind: TxKindModel,
    pub from: Option<Address>,
    pub to: Address,
    pub amount: Amount,
    pub fee: Amount,
    pub nonce: u64,
    pub timestamp: Timestamp,
    pub signature: Option<Seq<u8>>,
    pub public_key: Option<Seq<u8>>,
}

/// An optional byte vector, taken as an optional sequence.
pub open spec fn opt_bytes_view(o: Option<Vec<u8>>) -> Option<Seq<u8>> {
    match o {
        Some(v) => Some(v@),
        None => None,
    }
}

impl View for TxKind {
    type V = TxKindModel;

    open spec fn view(&self) -> TxKindModel {
        match self {
            TxKind::Transfer => TxKindModel::Transfer,
            TxKind::Coinbase => TxKindModel::Coinbase,
            TxKind::ContractCall { contract, method, args, gas_limit } => TxKindModel::ContractCall {
                contract: *contract,
                method: method@,
                args: args@,
                gas_limit: *gas_limit,
            },
            TxKind::ContractDeploy { bytecode, init_args, gas_limit } => TxKindModel::ContractDeploy {
                bytecode: bytecode@,
                init_args: init_args@,
                gas_limit: *gas_limit,
            },
        }
    }
}

impl View for Transaction {
    type V = TxModel;

    open spec fn view(&self) -> TxModel {
        TxModel {
            version: self.version,
            kind: self.kind@,
            from: self.from,
            to: self.to,
            amount: self.amount,
            fee: self.fee,
            nonce: self.nonce,
            timestamp: self.timestamp,
            signature: opt_bytes_view(self.signature),
            public_key: opt_bytes_view(self.public_key),
        }
    }
}

/// An optional address as JSON: `null` or its bytes.
pub open spec fn json_opt_address(a: Option<Address>) -> Seq<u8> {
    match a {
        Some(x) => json_bytes(x@),
        None => json_null(),
    }
}

/// The JSON text of a transaction kind (externally tagged, as `serde`
/// writes an enum).
pub open spec fn json_kind(k: TxKindModel) -> Seq<u8> {
    match k {
        TxKindModel::Transfer => lit("\"Transfer\""),
        TxKindModel::Coinbase => lit("\"Coinbase\""),
        TxKindModel::ContractCall { contract, method, args, gas_limit } => lit(
            "{\"ContractCall\":{\"contract\":",
        ) + json_bytes(contract@) + lit(",\"method\":") + json_string(
            vstd::utf8::encode_utf8(method),
        ) + lit(",\"args\":") + json_bytes(args) + lit(",\"gas_limit\":") + dec(gas_limit as nat)
            + lit("}}"),
        TxKindModel::ContractDeploy { bytecode, init_args, gas_limit } => lit(
            "{\"ContractDeploy\":{\"bytecode\":",
        ) + json_bytes(bytecode) + lit(",\"init_args\":") + json_bytes(init_args) + lit(
            ",\"gas_limit\":",
        ) + dec(gas_limit as nat) + lit("}}"),
    }
}

/// The JSON text of a transaction, the fields in their declared order.
#[verifier::opaque]
pub open spec fn json_tx(t: TxModel) -> Seq<u8> {
    lit("{\"version\":") + dec(t.version as nat) + lit(",\"kind\":") + json_kind(t.kind) + lit(
        ",\"from\":",
    ) + json_opt_address(t.from) + lit(",\"to\":") + json_bytes(t.to@) + lit(",\"amount\":")
        + dec(t.amount.0 as nat) + lit(",\"fee\":") + dec(t.fee.0 as nat) + lit(",\"nonce\":")
        + dec(t.nonce as nat) + lit(",\"timestamp\":") + dec(t.timestamp.0 as nat) + lit(
        ",\"signature\":",
    ) + json_opt_bytes(t.signature) + lit(",\"public_key\":") + json_opt_bytes(t.public_key)
        + lit("}")
}

/// The bytes that a signature covers: the JSON text of version, sender,
/// recipient, amount, fee, nonce and time.
pub open spec fn signing_bytes_spec(t: TxModel) -> Seq<u8> {
    lit("{\"version\":") + dec(t.version as nat) + lit(",\"from\":") + json_opt_address(t.from)
        + lit(",\"to\":") + json_bytes(t.to@) + lit(",\"amount\":") + dec(t.amount.0 as nat)
        + lit(",\"fee\":") + dec(t.fee.0 as nat) + lit(",\"nonce\":") + dec(t.nonce as nat) + lit(
        ",\"timestamp\":",
    ) + dec(t.timestamp.0 as nat) + lit("}")
}

/// The id of a transaction: the double SHA-256 of its JSON text.
pub open spec fn tx_id_spec(t: TxModel) -> Seq<u8> {
    sha256d_spec(json_tx(t))
}

/// The outcome of `Transaction::validate_basic`: `Ok`, or the message of the
/// `InvalidTransaction` error.
pub open spec fn validate_basic_spec(t: TxModel) -> Result<(), Seq<char>> {
    if t.kind is Coinbase {
        if t.from is Some {
            Err("coinbase cannot have sender"@)
        } else {
            Ok(())
        }
    } else if t.from is None {
        Err("missing sender"@)
    } else if t.signature is None || t.public_key is None {
        Err("missing signature or public key"@)
    } else if t.amount.0 == 0 {
        Err("zero amount not allowed"@)
    } else {
        Ok(())
    }
}

/// A copy of a byte vector.
pub fn copy_bytes(v: &Vec<u8>) -> (r: Vec<u8>)
    ensures
        r@ == v@,
{
    let mut r: Vec<u8> = Vec::new();
    let mut i: usize = 0;
    while i < v.len()
        invariant
            i <= v@.len(),
            r@ == v@.take(i as int),
        decreases v@.len() - i,
    {
        r.push(v[i]);
        i = i + 1;
        assert(r@ =~= v@.take(i as int));
    }
    assert(v@.take(v@.len() as int) =~= v@);
    r
}

/// A copy of an optional byte vector.
pub fn copy_opt_bytes(v: &Option<Vec<u8>>) -> (r: Option<Vec<u8>>)
    ensures
        opt_bytes_view(r) == opt_bytes_view(*v),
{
    match v {
        Some(b) => Some(copy_bytes(b)),
        None => None,
    }
}

impl Clone for TxKind {
    fn clone(&self) -> (r: Self)
        ensures
            r@ == self@,
    {
        match self {
            TxKind::Transfer => TxKind::Transfer,
            TxKind::Coinbase => TxKind::Coinbase,
            TxKind::ContractCall { contract, method, args, gas_limit } => TxKind::ContractCall {
                contract: *contract,
                method: method.clone(),
                args: copy_bytes(args),
                gas_limit: *gas_limit,
            },
            TxKind::ContractDeploy { bytecode, init_args, gas_limit } => TxKind::ContractDeploy {
                bytecode: copy_bytes(bytecode),
                init_args: copy_bytes(init_args),
                gas_limit: *gas_limit,
            },
        }
    }
}

impl Clone for Transaction {
    fn clone(&self) -> (r: Self)
        ensures
            r@ == self@,
    {
        Transaction {
            version: self.version,
            kind: self.kind.clone(),
            from: self.from,
            to: self.to,
            amount: self.amount,
            fee: self.fee,
            nonce: self.nonce,
            timestamp: self.timestamp,
            signature: copy_opt_bytes(&self.signature),
            public_key: copy_opt_bytes(&self.public_key),
        }
    }
}

/// Appends an optional address as JSON.
fn push_opt_address(out: &mut Vec<u8>, a: &Option<Address>)
    ensures
        final(out)@ == old(out)@ + json_opt_address(*a),
{
    match a {
        Some(x) => push_bytes(out, &x.0),
        None => push_str(out, "null"),
    }
}

/// Appends the JSON text of a transaction kind.
fn push_kind(out: &mut Vec<u8>, k: &TxKind)
    ensures
        final(out)@ == old(out)@ + json_kind(k@),
{
    let ghost start = out@;
    match k {
        TxKind::Transfer => push_str(out, "\"Transfer\""),
        TxKind::Coinbase => push_str(out, "\"Coinbase\""),
        TxKind::ContractCall { contract, method, args, gas_limit } => {
            push_str(out, "{\"ContractCall\":{\"contract\":");
            push_bytes(out, &contract.0);
            push_str(out, ",\"method\":");
            push_json_string(out, method.as_str().as_bytes());
            push_str(out, ",\"args\":");
            push_bytes(out, args.as_slice());
            push_str(out, ",\"gas_limit\":");
            push_dec(out, *gas_limit);
            push_str(out, "}}");
            assert(out@ =~= start + json_kind(k@));
        },
        TxKind::ContractDeploy { bytecode, init_args, gas_limit } => {
            push_str(out, "{\"ContractDeploy\":{\"bytecode\":");
            push_bytes(out, bytecode.as_slice());
            push_str(out, ",\"init_args\":");
            push_bytes(out, init_args.as_slice());
            push_str(out, ",\"gas_limit\":");
            push_dec(out, *gas_limit);
            push_str(out, "}}");
            assert(out@ =~= start + json_kind(k@));
        },
    }
}

impl Transaction {
    /// The JSON text of the transaction, as `serde_json::to_vec` writes it.
    pub fn to_json(&self) -> (r: Vec<u8>)
        ensures
            r@ == json_tx(self@),
    {
        let mut out: Vec<u8> = Vec::new();
        push_str(&mut out, "{\"version\":");
        push_dec(&mut out, self.version as u64);
        push_str(&mut out, ",\"kind\":");
        push_kind(&mut out, &self.kind);
        push_str(&mut out, ",\"from\":");
        push_opt_address(&mut out, &self.from);
        push_str(&mut out, ",\"to\":");
        push_bytes(&mut out, &self.to.0);
        push_str(&mut out, ",\"amount\":");
        push_dec(&mut out, self.amount.0);
        push_str(&mut out, ",\"fee\":");
        push_dec(&mut out, self.fee.0);
        push_str(&mut out, ",\"nonce\":");
        push_dec(&mut out, self.nonce);
        push_str(&mut out, ",\"timestamp\":");
        push_dec(&mut out, self.timestamp.0);
        push_str(&mut out, ",\"signature\":");
        push_opt_bytes(&mut out, &self.signature);
        push_str(&mut out, ",\"public_key\":");
        push_opt_bytes(&mut out, &self.public_key);
        push_str(&mut out, "}");
        assert(out@ =~= json_tx(self@)) by {
            reveal(json_tx);
        }
        out
    }

    /// The bytes that a signature covers (everything but the signature and
    /// the public key, and the kind).
    pub fn signing_bytes(&self) -> (r: Vec<u8>)
        ensures
            r@ == signing_bytes_spec(self@),
    {
        let mut out: Vec<u8> = Vec::new();
        push_str(&mut out, "{\"version\":");
        push_dec(&mut out, self.version as u64);
        push_str(&mut out, ",\"from\":");
        push_opt_address(&mut out, &self.from);
        push_str(&mut out, ",\"to\":");
        push_bytes(&mut out, &self.to.0);
        push_str(&mut out, ",\"amount\":");
        push_dec(&mut out, self.amount.0);
        push_str(&mut out, ",\"fee\":");
        push_dec(&mut out, self.fee.0);
        push_str(&mut out, ",\"nonce\":");
        push_dec(&mut out, self.nonce);
        push_str(&mut out, ",\"timestamp\":");
        push_dec(&mut out, self.timestamp.0);
        push_str(&mut out, "}");
        assert(out@ =~= signing_bytes_spec(self@));
        out
    }

    /// The transaction id: double SHA-256 of the JSON text.
    pub fn tx_id(&self) -> (r: TxId)
        ensures
            r@ == tx_id_spec(self@),
    {
        let bytes = self.to_json();
        hash::Hash::sha256d(bytes.as_slice())
    }

    /// Validation without checking the signature: a coinbase must have no
    /// sender; any other transaction needs a sender, a signature, a public
    /// key and a non-zero amount.
    pub fn validate_basic(&self) -> (r: Result<(), PrimitivesError>)
        ensures
            match validate_basic_spec(self@) {
                Ok(_) => r is Ok,
                Err(m) => r matches Err(PrimitivesError::InvalidTransaction(s)) && s@ == m,
            },
    {
        if let TxKind::Coinbase = self.kind {
            if self.from.is_some() {
                return Err(
                    PrimitivesError::InvalidTransaction(String::from_str("coinbase cannot have sender")),
                );
            }
            return Ok(());
        }
        if self.from.is_none() {
            return Err(PrimitivesError::InvalidTransaction(String::from_str("missing sender")));
        }
        if self.signature.is_none() || self.public_key.is_none() {
            return Err(
                PrimitivesError::InvalidTransaction(
                    String::from_str("missing signature or public key"),
                ),
            );
        }
        if self.amount.0 == 0 {
            return Err(
                PrimitivesError::InvalidTransaction(String::from_str("zero amount not allowed")),
            );
        }
        Ok(())
    }
}

} // verus!
