//! The layout of keys in the store.
//!
//! Heights are stored big-endian so that the store's lexicographic order
//! of keys is the numeric order of heights.
use crate::primitives::hash;
use crate::primitives::types::BlockHeight;
use vstd::prelude::*;

verus! {

/// The eight bytes of `n`, most significant first.
pub open spec fn be_bytes(n: u64) -> Seq<u8> {
    seq![
        (n >> 56u64) as u8,
        (n >> 48u64) as u8,
        (n >> 40u64) as u8,
        (n >> 32u64) as u8,
        (n >> 24u64) as u8,
        (n >> 16u64) as u8,
        (n >> 8u64) as u8,
        n as u8,
    ]
}

/// The number that eight bytes, most significant first, stand for.
pub open spec fn be_value(b: Seq<u8>) -> u64 {
    ((b[0] as u64) << 56u64) | ((b[1] as u64) << 48u64) | ((b[2] as u64) << 40u64) | ((
    b[3] as u64) << 32u64) | ((b[4] as u64) << 24u64) | ((b[5] as u64) << 16u64) | ((
    b[6] as u64) << 8u64) | (b[7] as u64)
}

/// Strict lexicographic order of byte strings, the order in which the
/// store keeps its keys.
pub open spec fn lex_lt(s: Seq<u8>, t: Seq<u8>) -> bool
    decreases s.len(),
{
    if s.len() == 0 {
        t.len() > 0
    } else if t.len() == 0 {
        false
    } else {
        s[0] < t[0] || (s[0] == t[0] && lex_lt(s.drop_first(), t.drop_first()))
    }
}

/// The key of a full block: `b` followed by the block's hash.
pub open spec fn block_key(h: Seq<u8>) -> Seq<u8> {
    seq![98u8] + h
}

/// Key builders for the store.
pub struct Keys;

impl Keys {
    /// The key of a full block: the byte `b` followed by the 32 bytes of
    /// its hash.
    pub fn block(hash: &hash::Hash) -> (r: Vec<u8>)
        ensures
            r@ == block_key(hash@),
    {
        let mut key: Vec<u8> = Vec::with_capacity(33);
        key.push(98u8);
        let b = hash.as_bytes();
        let mut i: usize = 0;
        while i < 32
            invariant
                i <= 32,
                b@ == hash@,
                b@.len() == 32,
                key@ == seq![98u8] + b@.take(i as int),
            decreases 32 - i,
        {
            key.push(b[i]);
            i = i + 1;
            assert(key@ =~= seq![98u8] + b@.take(i as int));
        }
        assert(b@.take(32) =~= b@);
        key
    }

    /// The key of a header or a transaction: its 32-byte hash itself.
    pub fn hash(hash: &hash::Hash) -> (r: [u8; 32])
        ensures
            r@ == hash@,
    {
        *hash.as_bytes()
    }

    /// The key of the height index: the height in big-endian order.
    pub fn height(height: BlockHeight) -> (r: [u8; 8])
        ensures
            r@ == be_bytes(height.0),
    {
        let n = height.0;
        let r = [
            (n >> 56u64) as u8,
            (n >> 48u64) as u8,
            (n >> 40u64) as u8,
            (n >> 32u64) as u8,
            (n >> 24u64) as u8,
            (n >> 16u64) as u8,
            (n >> 8u64) as u8,
            n as u8,
        ];
        assert(r@ =~= be_bytes(n));
        r
    }
}

/// Reads eight bytes as a big-endian number.
pub fn be_decode(b: &[u8; 8]) -> (r: u64)
    ensures
        r == be_value(b@),
{
    ((b[0] as u64) << 56u64) | ((b[1] as u64) << 48u64) | ((b[2] as u64) << 40u64) | ((
    b[3] as u64) << 32u64) | ((b[4] as u64) << 24u64) | ((b[5] as u64) << 16u64) | ((
    b[6] as u64) << 8u64) | (b[7] as u64)
}

/// Reading a height key gives back the height.
pub proof fn lemma_height_key_roundtrip(n: u64)
    ensures
        be_value(be_bytes(n)) == n,
{
    let b = be_bytes(n);
    let (b0, b1, b2, b3, b4, b5, b6, b7) = (b[0], b[1], b[2], b[3], b[4], b[5], b[6], b[7]);
    assert((((b0 as u64) << 56u64) | ((b1 as u64) << 48u64) | ((b2 as u64) << 40u64) | ((
    b3 as u64) << 32u64) | ((b4 as u64) << 24u64) | ((b5 as u64) << 16u64) | ((b6 as u64)
        << 8u64) | (b7 as u64)) == n) by (bit_vector)
        requires
            b0 == (n >> 56u64) as u8,
            b1 == (n >> 48u64) as u8,
            b2 == (n >> 40u64) as u8,
            b3 == (n >> 32u64) as u8,
            b4 == (n >> 24u64) as u8,
            b5 == (n >> 16u64) as u8,
            b6 == (n >> 8u64) as u8,
            b7 == n as u8,
    ;
}

/// Height keys sort as the heights do: the key of `a` comes before the key
/// of `b` exactly when `a < b`.
pub proof fn lemma_height_keys_ordered(a: u64, b: u64)
    ensures
        lex_lt(be_bytes(a), be_bytes(b)) <==> a < b,
{
    let s = be_bytes(a);
    let t = be_bytes(b);
    reveal_with_fuel(lex_lt, 9);
    assert(s.drop_first().drop_first().drop_first().drop_first().drop_first().drop_first().drop_first().drop_first().len() == 0);
    let (a0, a1, a2, a3, a4, a5, a6, a7) = (s[0], s[1], s[2], s[3], s[4], s[5], s[6], s[7]);
    let (b0, b1, b2, b3, b4, b5, b6, b7) = (t[0], t[1], t[2], t[3], t[4], t[5], t[6], t[7]);
    assert(a < b <==> (a0 < b0 || (a0 == b0 && (a1 < b1 || (a1 == b1 && (a2 < b2 || (a2 == b2 && (
    a3 < b3 || (a3 == b3 && (a4 < b4 || (a4 == b4 && (a5 < b5 || (a5 == b5 && (a6 < b6 || (a6
        == b6 && a7 < b7))))))))))))))) by (bit_vector)
        requires
            a0 == (a >> 56u64) as u8,
            a1 == (a >> 48u64) as u8,
            a2 == (a >> 40u64) as u8,
            a3 == (a >> 32u64) as u8,
            a4 == (a >> 24u64) as u8,
            a5 == (a >> 16u64) as u8,
            a6 == (a >> 8u64) as u8,
            a7 == a as u8,
            b0 == (b >> 56u64) as u8,
            b1 == (b >> 48u64) as u8,
            b2 == (b >> 40u64) as u8,
            b3 == (b >> 32u64) as u8,
            b4 == (b >> 24u64) as u8,
            b5 == (b >> 16u64) as u8,
            b6 == (b >> 8u64) as u8,
            b7 == b as u8,
    ;
}

} // verus!
