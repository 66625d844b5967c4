//! The token's functions.
use crate::pairs::{lemma_lookup_put, lookup, put};
use crate::primitives::json::lit;
use crate::token::storage::ContractStorage;
use vstd::prelude::*;

verus! {

/// The key of an address's balance: `balance:` and the address.
pub open spec fn balance_key_spec(address: Seq<u8>) -> Seq<u8> {
    lit("balance:") + address
}

/// The key of an allowance: `allowance:`, the owner, `:`, the spender.
pub open spec fn allowance_key_spec(owner: Seq<u8>, spender: Seq<u8>) -> Seq<u8> {
    lit("allowance:") + owner + seq![58u8] + spender
}

/// The eight little-endian bytes of `n`.
pub open spec fn le_bytes(n: u64) -> Seq<u8> {
    seq![
        n as u8,
        (n >> 8u64) as u8,
        (n >> 16u64) as u8,
        (n >> 24u64) as u8,
        (n >> 32u64) as u8,
        (n >> 40u64) as u8,
        (n >> 48u64) as u8,
        (n >> 56u64) as u8,
    ]
}

/// The number eight little-endian bytes stand for.
pub open spec fn le_value(b: Seq<u8>) -> u64 {
    (b[0] as u64) | ((b[1] as u64) << 8u64) | ((b[2] as u64) << 16u64) | ((b[3] as u64) << 24u64)
        | ((b[4] as u64) << 32u64) | ((b[5] as u64) << 40u64) | ((b[6] as u64) << 48u64) | ((
    b[7] as u64) << 56u64)
}

/// The number stored under a key: 0 where nothing, or no eight bytes, is
/// stored there.
pub open spec fn load_spec(entries: Seq<(Seq<u8>, Seq<u8>)>, key: Seq<u8>) -> u64 {
    match lookup(entries, key) {
        Some(v) => if v.len() == 8 {
            le_value(v)
        } else {
            0
        },
        None => 0,
    }
}

/// Storing a number and reading it back gives the number.
pub proof fn lemma_le_roundtrip(n: u64)
    ensures
        le_value(le_bytes(n)) == n,
        le_bytes(n).len() == 8,
{
    let b = le_bytes(n);
    let (b0, b1, b2, b3, b4, b5, b6, b7) = (b[0], b[1], b[2], b[3], b[4], b[5], b[6], b[7]);
    assert(((b0 as u64) | ((b1 as u64) << 8u64) | ((b2 as u64) << 16u64) | ((b3 as u64) << 24u64)
        | ((b4 as u64) << 32u64) | ((b5 as u64) << 40u64) | ((b6 as u64) << 48u64) | ((b7 as u64)
        << 56u64)) == n) by (bit_vector)
        requires
            b0 == n as u8,
            b1 == (n >> 8u64) as u8,
            b2 == (n >> 16u64) as u8,
            b3 == (n >> 24u64) as u8,
            b4 == (n >> 32u64) as u8,
            b5 == (n >> 40u64) as u8,
            b6 == (n >> 48u64) as u8,
            b7 == (n >> 56u64) as u8,
    ;
}

fn append_bytes(out: &mut Vec<u8>, data: &[u8])
    ensures
        final(out)@ == old(out)@ + data@,
{
    let ghost start = out@;
    let mut i: usize = 0;
    while i < data.len()
        invariant
            i <= data@.len(),
            out@ == start + data@.take(i as int),
        decreases data@.len() - i,
    {
        out.push(data[i]);
        i = i + 1;
        assert(out@ =~= start + data@.take(i as int));
    }
    assert(data@.take(data@.len() as int) =~= data@);
}

/// The key of an address's balance.
pub fn balance_key(address: &[u8]) -> (r: Vec<u8>)
    ensures
        r@ == balance_key_spec(address@),
{
    let mut key = vstd::slice::slice_to_vec("balance:".as_bytes());
    append_bytes(&mut key, address);
    key
}

/// The key of the allowance that `owner` gives `spender`.
pub fn allowance_key(owner: &[u8], spender: &[u8]) -> (r: Vec<u8>)
    ensures
        r@ == allowance_key_spec(owner@, spender@),
{
    let mut key = vstd::slice::slice_to_vec("allowance:".as_bytes());
    append_bytes(&mut key, owner);
    key.push(58u8);
    append_bytes(&mut key, spender);
    assert(key@ =~= allowance_key_spec(owner@, spender@));
    key
}

/// Stores a number under a key, as eight little-endian bytes.
fn store_u64(s: &mut ContractStorage, key: &[u8], value: u64)
    ensures
        final(s).entries_spec() == put(old(s).entries_spec(), key@, le_bytes(value)),
        final(s).events_spec() == old(s).events_spec(),
{
    let bytes = [
        value as u8,
        (value >> 8u64) as u8,
        (value >> 16u64) as u8,
        (value >> 24u64) as u8,
        (value >> 32u64) as u8,
        (value >> 40u64) as u8,
        (value >> 48u64) as u8,
        (value >> 56u64) as u8,
    ];
    assert(bytes@ =~= le_bytes(value));
    s.storage_set(key, &bytes);
}

/// Reads the number stored under a key.
fn load_u64(s: &ContractStorage, key: &[u8]) -> (r: u64)
    ensures
        r == load_spec(s.entries_spec(), key@),
{
    match s.storage_get(key) {
        Some(v) => {
            if v.len() != 8 {
                return 0;
            }
            (v[0] as u64) | ((v[1] as u64) << 8u64) | ((v[2] as u64) << 16u64) | ((v[3] as u64)
                << 24u64) | ((v[4] as u64) << 32u64) | ((v[5] as u64) << 40u64) | ((v[6] as u64)
                << 48u64) | ((v[7] as u64) << 56u64)
        },
        None => 0,
    }
}

/// Deploys the token: the whole supply to `owner`, with the token's name,
/// symbol and eight decimals, and a `Transfer` event.
pub fn init(s: &mut ContractStorage, owner: &[u8], total_supply: u64, name: &[u8], symbol: &[u8])
    ensures
        final(s).entries_spec() == put(
            put(
                put(
                    put(put(old(s).entries_spec(), lit("total_supply"), le_bytes(total_supply)), lit("decimals"), le_bytes(8)),
                    lit("name"),
                    name@,
                ),
                lit("symbol"),
                symbol@,
            ),
            balance_key_spec(owner@),
            le_bytes(total_supply),
        ),
        final(s).events_spec() == old(s).events_spec().push(
            (lit("Transfer"), lit("{\"from\":\"0x0\",\"amount\":\"all\"}")),
        ),
{
    store_u64(s, "total_supply".as_bytes(), total_supply);
    store_u64(s, "decimals".as_bytes(), 8);
    s.storage_set("name".as_bytes(), name);
    s.storage_set("symbol".as_bytes(), symbol);
    let key = balance_key(owner);
    store_u64(s, key.as_slice(), total_supply);
    s.emit_event("Transfer".as_bytes(), "{\"from\":\"0x0\",\"amount\":\"all\"}".as_bytes());
}

/// Moves `amount` from the caller to `to`: 1 on success, 0 (nothing
/// changed) where the caller's balance is smaller or the recipient's
/// balance would overflow.
pub fn transfer(s: &mut ContractStorage, caller: &[u8; 20], to: &[u8], amount: u64) -> (r: i32)
    ensures
        ({
            let fk = balance_key_spec(caller@);
            let tk = balance_key_spec(to@);
            let fb = load_spec(old(s).entries_spec(), fk);
            let tb = load_spec(old(s).entries_spec(), tk);
            if fb < amount || tb + amount > u64::MAX {
                r == 0 && final(s).entries_spec() == old(s).entries_spec() && final(s).events_spec()
                    == old(s).events_spec()
            } else {
                r == 1 && final(s).entries_spec() == put(
                    put(old(s).entries_spec(), fk, le_bytes((fb - amount) as u64)),
                    tk,
                    le_bytes((tb + amount) as u64),
                ) && final(s).events_spec() == old(s).events_spec().push(
                    (lit("Transfer"), lit("{}")),
                )
            }
        }),
{
    let from_key = balance_key(caller);
    let from_bal = load_u64(s, from_key.as_slice());
    if from_bal < amount {
        return 0;
    }
    let to_key = balance_key(to);
    let to_bal = load_u64(s, to_key.as_slice());
    if to_bal > u64::MAX - amount {
        return 0;
    }
    store_u64(s, from_key.as_slice(), from_bal - amount);
    store_u64(s, to_key.as_slice(), to_bal + amount);
    s.emit_event("Transfer".as_bytes(), "{}".as_bytes());
    1
}

/// The balance of an address.
pub fn balance_of(s: &ContractStorage, address: &[u8]) -> (r: u64)
    ensures
        r == load_spec(s.entries_spec(), balance_key_spec(address@)),
{
    let key = balance_key(address);
    load_u64(s, key.as_slice())
}

/// Lets `spender` spend up to `amount` of the caller's tokens; always 1.
pub fn approve(s: &mut ContractStorage, caller: &[u8; 20], spender: &[u8], amount: u64) -> (r: i32)
    ensures
        r == 1,
        final(s).entries_spec() == put(
            old(s).entries_spec(),
            allowance_key_spec(caller@, spender@),
            le_bytes(amount),
        ),
        final(s).events_spec() == old(s).events_spec().push((lit("Approval"), lit("{}"))),
{
    let key = allowance_key(caller, spender);
    store_u64(s, key.as_slice(), amount);
    s.emit_event("Approval".as_bytes(), "{}".as_bytes());
    1
}

/// Moves `amount` from `from` to `to` on the allowance `from` gave the
/// caller: 1 on success, the allowance reduced by `amount`; 0 (nothing
/// changed) where the allowance or `from`'s balance is smaller, or the
/// recipient's balance would overflow.
pub fn transfer_from(
    s: &mut ContractStorage,
    caller: &[u8; 20],
    from: &[u8],
    to: &[u8],
    amount: u64,
) -> (r: i32)
    ensures
        ({
            let ak = allowance_key_spec(from@, caller@);
            let fk = balance_key_spec(from@);
            let tk = balance_key_spec(to@);
            let al = load_spec(old(s).entries_spec(), ak);
            let fb = load_spec(old(s).entries_spec(), fk);
            let tb = load_spec(old(s).entries_spec(), tk);
            if al < amount || fb < amount || tb + amount > u64::MAX {
                r == 0 && final(s).entries_spec() == old(s).entries_spec() && final(s).events_spec()
                    == old(s).events_spec()
            } else {
                r == 1 && final(s).entries_spec() == put(
                    put(
                        put(old(s).entries_spec(), fk, le_bytes((fb - amount) as u64)),
                        tk,
                        le_bytes((tb + amount) as u64),
                    ),
                    ak,
                    le_bytes((al - amount) as u64),
                ) && final(s).events_spec() == old(s).events_spec().push(
                    (lit("Transfer"), lit("{}")),
                )
            }
        }),
{
    let akey = allowance_key(from, caller);
    let allowance = load_u64(s, akey.as_slice());
    if allowance < amount {
        return 0;
    }
    let from_key = balance_key(from);
    let from_bal = load_u64(s, from_key.as_slice());
    if from_bal < amount {
        return 0;
    }
    let to_key = balance_key(to);
    let to_bal = load_u64(s, to_key.as_slice());
    if to_bal > u64::MAX - amount {
        return 0;
    }
    store_u64(s, from_key.as_slice(), from_bal - amount);
    store_u64(s, to_key.as_slice(), to_bal + amount);
    store_u64(s, akey.as_slice(), allowance - amount);
    s.emit_event("Transfer".as_bytes(), "{}".as_bytes());
    1
}

/// The allowance `owner` gives `spender`.
pub fn allowance(s: &ContractStorage, owner: &[u8], spender: &[u8]) -> (r: u64)
    ensures
        r == load_spec(s.entries_spec(), allowance_key_spec(owner@, spender@)),
{
    let key = allowance_key(owner, spender);
    load_u64(s, key.as_slice())
}

/// A transfer between two different addresses moves the amount: the
/// sender's balance goes down by it, the recipient's up by it, and their
/// sum stays.
pub proof fn lemma_transfer_moves_amount(
    entries: Seq<(Seq<u8>, Seq<u8>)>,
    from: Seq<u8>,
    to: Seq<u8>,
    amount: u64,
)
    requires
        from != to,
        load_spec(entries, balance_key_spec(from)) >= amount,
        load_spec(entries, balance_key_spec(to)) + amount <= u64::MAX,
    ensures
        ({
            let fk = balance_key_spec(from);
            let tk = balance_key_spec(to);
            let fb = load_spec(entries, fk);
            let tb = load_spec(entries, tk);
            let after = put(put(entries, fk, le_bytes((fb - amount) as u64)), tk, le_bytes((tb + amount) as u64));
            &&& load_spec(after, fk) == fb - amount
            &&& load_spec(after, tk) == tb + amount
            &&& load_spec(after, fk) + load_spec(after, tk) == fb + tb
        }),
{
    let fk = balance_key_spec(from);
    let tk = balance_key_spec(to);
    let fb = load_spec(entries, fk);
    let tb = load_spec(entries, tk);
    assert(fk != tk) by {
        let p = lit("balance:");
        assert(fk.skip(p.len() as int) =~= from);
        assert(tk.skip(p.len() as int) =~= to);
    }
    let mid = put(entries, fk, le_bytes((fb - amount) as u64));
    let after = put(mid, tk, le_bytes((tb + amount) as u64));
    lemma_lookup_put(mid, tk, le_bytes((tb + amount) as u64), fk);
    lemma_lookup_put(entries, fk, le_bytes((fb - amount) as u64), fk);
    lemma_lookup_put(mid, tk, le_bytes((tb + amount) as u64), tk);
    lemma_le_roundtrip((fb - amount) as u64);
    lemma_le_roundtrip((tb + amount) as u64);
}

/// A transfer on an allowance between two different addresses moves the
/// amount as `transfer` does, and takes it off the allowance.
pub proof fn lemma_transfer_from_moves_amount(
    entries: Seq<(Seq<u8>, Seq<u8>)>,
    spender: Seq<u8>,
    from: Seq<u8>,
    to: Seq<u8>,
    amount: u64,
)
    requires
        from != to,
        load_spec(entries, allowance_key_spec(from, spender)) >= amount,
        load_spec(entries, balance_key_spec(from)) >= amount,
        load_spec(entries, balance_key_spec(to)) + amount <= u64::MAX,
    ensures
        ({
            let ak = allowance_key_spec(from, spender);
            let fk = balance_key_spec(from);
            let tk = balance_key_spec(to);
            let al = load_spec(entries, ak);
            let fb = load_spec(entries, fk);
            let tb = load_spec(entries, tk);
            let after = put(
                put(put(entries, fk, le_bytes((fb - amount) as u64)), tk, le_bytes((tb + amount) as u64)),
                ak,
                le_bytes((al - amount) as u64),
            );
            &&& load_spec(after, fk) == fb - amount
            &&& load_spec(after, tk) == tb + amount
            &&& load_spec(after, ak) == al - amount
        }),
{
    let ak = allowance_key_spec(from, spender);
    let fk = balance_key_spec(from);
    let tk = balance_key_spec(to);
    let al = load_spec(entries, ak);
    let fb = load_spec(entries, fk);
    let tb = load_spec(entries, tk);
    assert(fk != tk) by {
        let p = lit("balance:");
        assert(fk.skip(p.len() as int) =~= from);
        assert(tk.skip(p.len() as int) =~= to);
    }
    assert(ak != fk && ak != tk) by {
        reveal_strlit("allowance:");
        reveal_strlit("balance:");
        let a = "allowance:"@;
        let b = "balance:"@;
        assert(vstd::utf8::is_ascii_chars(a));
        assert(vstd::utf8::is_ascii_chars(b));
        vstd::utf8::is_ascii_chars_encode_utf8(a);
        vstd::utf8::is_ascii_chars_encode_utf8(b);
        assert(lit("allowance:")[0] == 97u8);
        assert(lit("balance:")[0] == 98u8);
        assert(ak[0] == 97u8);
        assert(fk[0] == 98u8);
        assert(tk[0] == 98u8);
    }
    let m1 = put(entries, fk, le_bytes((fb - amount) as u64));
    let m2 = put(m1, tk, le_bytes((tb + amount) as u64));
    let after = put(m2, ak, le_bytes((al - amount) as u64));
    lemma_lookup_put(m2, ak, le_bytes((al - amount) as u64), fk);
    lemma_lookup_put(m2, ak, le_bytes((al - amount) as u64), tk);
    lemma_lookup_put(m2, ak, le_bytes((al - amount) as u64), ak);
    lemma_lookup_put(m1, tk, le_bytes((tb + amount) as u64), fk);
    lemma_lookup_put(m1, tk, le_bytes((tb + amount) as u64), tk);
    lemma_lookup_put(entries, fk, le_bytes((fb - amount) as u64), fk);
    lemma_le_roundtrip((fb - amount) as u64);
    lemma_le_roundtrip((tb + amount) as u64);
    lemma_le_roundtrip((al - amount) as u64);
}

} // verus!
