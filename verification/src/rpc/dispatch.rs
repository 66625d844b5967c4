//! Routing of JSON-RPC methods and of REST lookups.
use crate::mempool::Mempool;
use crate::primitives::digest::{hex_decode, hex_decode_spec, hex_lower};
use crate::primitives::json::lit;
use crate::primitives::transaction::{tx_id_spec, validate_basic_spec, Transaction};
use crate::rpc::error::RpcError;
use crate::storage::error::StorageError;
use vstd::prelude::*;
use vstd::string::StringSliceAdditionalSpecFns;

verus! {

/// The JSON-RPC methods the server answers.
#[derive(Debug, Clone, Copy, PartialEq, Eq, Structural)]
pub enum RpcMethod {
    /// `chain_getInfo`: basic information on the chain.
    ChainGetInfo,
    /// `mempool_getSize`: the number of pending transactions.
    MempoolGetSize,
    /// `tx_send`: submit a hex-encoded transaction.
    TxSend,
    /// Any other name.
    Unknown,
}

/// The method a name stands for.
pub open spec fn route_spec(name: Seq<u8>) -> RpcMethod {
    if name == lit("chain_getInfo") {
        RpcMethod::ChainGetInfo
    } else if name == lit("mempool_getSize") {
        RpcMethod::MempoolGetSize
    } else if name == lit("tx_send") {
        RpcMethod::TxSend
    } else {
        RpcMethod::Unknown
    }
}

fn bytes_eq(a: &[u8], b: &[u8]) -> (r: bool)
    ensures
        r == (a@ == b@),
{
    if a.len() != b.len() {
        return false;
    }
    let mut i: usize = 0;
    while i < a.len()
        invariant
            i <= a@.len(),
            a@.len() == b@.len(),
            forall|k: int| 0 <= k < i ==> a@[k] == b@[k],
        decreases a@.len() - i,
    {
        if a[i] != b[i] {
            return false;
        }
        i = i + 1;
    }
    assert(a@ =~= b@);
    true
}

/// The method that a JSON-RPC request names.
pub fn route_method(method: &str) -> (r: RpcMethod)
    ensures
        r == route_spec(method.spec_bytes()),
{
    let m = method.as_bytes();
    if bytes_eq(m, "chain_getInfo".as_bytes()) {
        RpcMethod::ChainGetInfo
    } else if bytes_eq(m, "mempool_getSize".as_bytes()) {
        RpcMethod::MempoolGetSize
    } else if bytes_eq(m, "tx_send".as_bytes()) {
        RpcMethod::TxSend
    } else {
        RpcMethod::Unknown
    }
}

/// The error for a method name the server does not know.
pub fn method_not_found(method: &str) -> (r: RpcError)
    ensures
        r matches RpcError::MethodNotFound(s) && s@ == method@,
{
    RpcError::MethodNotFound(String::from_str(method))
}

/// The bytes of the transaction that `tx_send` carries as a hex string in
/// its first parameter: `InvalidParams("expected hex string")` where there
/// is none, `InvalidParams("invalid hex")` where it is not hex.
pub fn tx_send_bytes(param: Option<&str>) -> (r: Result<Vec<u8>, RpcError>)
    ensures
        match param {
            None => r matches Err(RpcError::InvalidParams(m)) && m@ == "expected hex string"@,
            Some(p) => match hex_decode_spec(p.spec_bytes()) {
                Ok(b) => r matches Ok(v) && v@ == b,
                Err(_) => r matches Err(RpcError::InvalidParams(m)) && m@ == "invalid hex"@,
            },
        },
{
    let p = match param {
        Some(p) => p,
        None => return Err(RpcError::InvalidParams(String::from_str("expected hex string"))),
    };
    match hex_decode(p.as_bytes()) {
        Ok(v) => Ok(v),
        Err(_) => Err(RpcError::InvalidParams(String::from_str("invalid hex"))),
    }
}

/// Submits a transaction to the pool: its id in hex where the pool takes
/// it (see `Mempool::admits`), else `Internal` with the pool's message (see
/// `Mempool::refusal`), the pool unchanged.
pub fn submit_transaction(pool: &mut Mempool, tx: Transaction) -> (r: Result<String, RpcError>)
    requires
        old(pool).wf(),
    ensures
        final(pool).wf(),
        final(pool).capacity() == old(pool).capacity(),
        r matches Ok(s) ==> s@ == hex_lower(tx_id_spec(tx@)) && final(pool).contents().contains_key(
            tx_id_spec(tx@),
        ),
        r is Ok ==> old(pool).admits(tx@, final(pool).contents()),
        r is Err ==> (r matches Err(RpcError::Internal(m)) && old(pool).refusal(tx@) == Some(m@))
            && final(pool).contents() == old(pool).contents(),
        r is Ok <==> (validate_basic_spec(tx@) is Ok && !old(pool).contents().contains_key(
            tx_id_spec(tx@),
        ) && !(old(pool).contents().len() >= old(pool).capacity() && old(pool).contents().len()
            == 0) && old(pool).next_arrival() < u64::MAX),
{
    match pool.add(tx) {
        Ok(id) => Ok(id.to_hex()),
        Err(e) => Err(RpcError::Internal(e.message())),
    }
}

/// The HTTP status of a lookup in the store: 200 where found, 404 where
/// missing, 500 where the store failed.
pub fn lookup_status<T>(r: &Result<Option<T>, StorageError>) -> (s: u16)
    ensures
        s == (match r {
            Ok(Some(_)) => 200u16,
            Ok(None) => 404u16,
            Err(_) => 500u16,
        }),
{
    match r {
        Ok(Some(_)) => 200,
        Ok(None) => 404,
        Err(_) => 500,
    }
}

} // verus!
