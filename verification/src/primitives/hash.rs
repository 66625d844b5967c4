//! The 32-byte SHA-256 hash at the base of the chain.
use crate::primitives::digest::{hex_decode, hex_decode_spec, hex_encode, hex_lower, lemma_hex_roundtrip, sha256, sha256_spec};
use crate::primitives::error::HexError;
use vstd::prelude::*;
use vstd::string::StringSliceAdditionalSpecFns;

verus! {

/// A 32-byte SHA-256 digest.
#[derive(Debug, Clone, Copy, PartialEq, Eq, PartialOrd, Ord, Hash, Default)]
pub struct Hash(pub [u8; 32]);

impl View for Hash {
    type V = Seq<u8>;

    open spec fn view(&self) -> Seq<u8> {
        self.0@
    }
}

/// Double SHA-256.
pub open spec fn sha256d_spec(data: Seq<u8>) -> Seq<u8> {
    sha256_spec(sha256_spec(data))
}

/// Whether the first `d` bits of `h` (most significant bit of the first
/// byte first) are zero. Bits past the end of `h` are not looked at.
pub open spec fn leading_zero_bits(h: Seq<u8>, d: nat) -> bool {
    &&& forall|i: int| 0 <= i < d / 8 && i < h.len() ==> h[i] == 0
    &&& (d % 8 != 0 && d / 8 < h.len()) ==> (h[(d / 8) as int] >> ((8 - d % 8) as u8)) == 0
}

/// Meeting a difficulty means meeting every lower one.
pub proof fn lemma_difficulty_monotone(h: Seq<u8>, d1: nat, d2: nat)
    requires
        d1 <= d2,
        leading_zero_bits(h, d2),
    ensures
        leading_zero_bits(h, d1),
{
    if d1 % 8 != 0 && d1 / 8 < h.len() {
        let i = (d1 / 8) as int;
        let b = h[i];
        let s1 = (8 - d1 % 8) as u8;
        if d1 / 8 < d2 / 8 {
            assert(b == 0);
            assert((b >> s1) == 0) by (bit_vector)
                requires
                    b == 0,
            ;
        } else {
            assert(d2 / 8 == d1 / 8);
            assert(d2 % 8 >= d1 % 8);
            let s2 = (8 - d2 % 8) as u8;
            assert((b >> s2) == 0);
            assert((b >> s1) == 0) by (bit_vector)
                requires
                    (b >> s2) == 0,
                    1 <= s2 <= s1 <= 7,
            ;
        }
    }
}

/// A hash of all zero bytes meets every difficulty; one whose first byte
/// is not zero meets none from 8 bits up.
pub proof fn lemma_difficulty_extremes(h: Seq<u8>, d: nat)
    ensures
        (forall|i: int| 0 <= i < h.len() ==> h[i] == 0) ==> leading_zero_bits(h, d),
        h.len() > 0 && h[0] != 0 && d >= 8 ==> !leading_zero_bits(h, d),
{
    if forall|i: int| 0 <= i < h.len() ==> h[i] == 0 {
        if d % 8 != 0 && d / 8 < h.len() {
            let b = h[(d / 8) as int];
            let s = (8 - d % 8) as u8;
            assert((b >> s) == 0) by (bit_vector)
                requires
                    b == 0,
            ;
        }
    }
    if h.len() > 0 && h[0] != 0 && d >= 8 {
        assert(0 < d / 8);
    }
}

/// What `Hash::from_hex` returns for the bytes of a text.
pub open spec fn hash_from_hex_spec(text: Seq<u8>) -> Result<Seq<u8>, HexError> {
    match hex_decode_spec(text) {
        Ok(b) => if b.len() == 32 {
            Ok(b)
        } else {
            Err(HexError::InvalidStringLength)
        },
        Err(e) => Err(e),
    }
}

impl Hash {
    /// The zero hash (the previous hash of the genesis block).
    pub fn zero() -> (r: Hash)
        ensures
            forall|i: int| 0 <= i < 32 ==> r.0@[i] == 0,
    {
        Hash([0u8; 32])
    }

    /// Whether every byte of the hash is zero.
    pub open spec fn is_zero(&self) -> bool {
        forall|i: int| 0 <= i < 32 ==> self.0@[i] == 0
    }

    /// SHA-256 of arbitrary bytes.
    pub fn sha256(data: &[u8]) -> (r: Hash)
        ensures
            r@ == sha256_spec(data@),
    {
        Hash(sha256(data))
    }

    /// Double SHA-256 (as in Bitcoin).
    pub fn sha256d(data: &[u8]) -> (r: Hash)
        ensures
            r@ == sha256d_spec(data@),
    {
        let first = sha256(data);
        Hash(sha256(&first))
    }

    /// The raw 32 bytes.
    pub fn as_bytes(&self) -> (r: &[u8; 32])
        ensures
            *r == self.0,
    {
        &self.0
    }

    /// A hash from its raw 32 bytes.
    pub fn from_bytes(bytes: [u8; 32]) -> (r: Hash)
        ensures
            r.0 == bytes,
    {
        Hash(bytes)
    }

    /// Whether two hashes hold the same bytes.
    pub fn same_as(&self, other: &Hash) -> (r: bool)
        ensures
            r == (*self == *other),
    {
        let mut i: usize = 0;
        while i < 32
            invariant
                i <= 32,
                forall|k: int| 0 <= k < i ==> self.0@[k] == other.0@[k],
            decreases 32 - i,
        {
            if self.0[i] != other.0[i] {
                return false;
            }
            i = i + 1;
        }
        assert(self.0 =~= other.0);
        true
    }

    /// The hash as 64 lowercase hex digits.
    pub fn to_hex(&self) -> (r: String)
        ensures
            r@ == hex_lower(self@),
            hash_from_hex_spec(vstd::utf8::encode_utf8(r@)) == Ok::<Seq<u8>, HexError>(self@),
    {
        proof {
            lemma_hex_roundtrip(self@);
        }
        hex_encode(&self.0)
    }

    /// The short form for logs: `Hash(` the first eight hex digits `...`
    /// the last eight `)`.
    pub fn debug_text(&self) -> (r: String)
        ensures
            r@ == "Hash("@ + hex_lower(self@.take(4)) + "..."@ + hex_lower(self@.skip(28)) + ")"@,
    {
        let head = hex_encode(vstd::slice::slice_subrange(&self.0, 0, 4));
        let tail = hex_encode(vstd::slice::slice_subrange(&self.0, 28, 32));
        let mut r = String::from_str("Hash(");
        r.append(head.as_str());
        r.append("...");
        r.append(tail.as_str());
        r.append(")");
        r
    }

    /// Parses 64 hex digits. Fails as `hex::decode` does, and with
    /// `InvalidStringLength` where the digits do not make 32 bytes.
    pub fn from_hex(s: &str) -> (r: Result<Hash, HexError>)
        ensures
            match hash_from_hex_spec(s.spec_bytes()) {
                Ok(b) => r matches Ok(h) && h@ == b,
                Err(e) => r == Err::<Hash, HexError>(e),
            },
    {
        let bytes = match hex_decode(s.as_bytes()) {
            Ok(b) => b,
            Err(e) => return Err(e),
        };
        if bytes.len() != 32 {
            return Err(HexError::InvalidStringLength);
        }
        let mut arr = [0u8; 32];
        let mut i: usize = 0;
        while i < 32
            invariant
                i <= 32,
                bytes@.len() == 32,
                forall|k: int| 0 <= k < i ==> arr@[k] == bytes@[k],
            decreases 32 - i,
        {
            arr[i] = bytes[i];
            i = i + 1;
        }
        assert(arr@ =~= bytes@);
        Ok(Hash(arr))
    }

    /// Whether the hash meets a difficulty: its first `difficulty` bits are
    /// zero. A difficulty past the 256 bits of the hash asks that every bit
    /// be zero, so the zero hash meets any difficulty.
    pub fn meets_difficulty(&self, difficulty: u32) -> (r: bool)
        ensures
            r == leading_zero_bits(self@, difficulty as nat),
    {
        let bytes_to_check: usize = if difficulty / 8 < 32 {
            (difficulty / 8) as usize
        } else {
            32
        };
        let bits_remaining = (difficulty % 8) as u8;
        let mut i: usize = 0;
        while i < bytes_to_check
            invariant
                i <= bytes_to_check <= 32,
                bytes_to_check == (if difficulty / 8 < 32 { difficulty / 8 } else { 32 }),
                forall|k: int| 0 <= k < i ==> self.0@[k] == 0,
            decreases bytes_to_check - i,
        {
            if self.0[i] != 0 {
                return false;
            }
            i = i + 1;
        }
        if bits_remaining > 0 && bytes_to_check < 32 {
            let shift: u8 = 8 - bits_remaining;
            let mask: u8 = 0xFFu8 << shift;
            let b = self.0[bytes_to_check];
            assert((b & (0xFFu8 << shift)) == 0 <==> (b >> shift) == 0) by (bit_vector)
                requires
                    1 <= shift <= 7,
            ;
            if b & mask != 0 {
                return false;
            }
        }
        true
    }
}

} // verus!
