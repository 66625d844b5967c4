//! Newtypes for heights, times, nonces, amounts and addresses.
use crate::primitives::digest::{bs58_decode, bs58_decode_spec, bs58_encode, bs58_encode_spec, sha256, sha256_spec};
use crate::primitives::error::PrimitivesError;
use vstd::prelude::*;
use vstd::string::StringSliceAdditionalSpecFns;

verus! {

/// Height of a block in the chain (genesis = 0).
#[derive(Debug, Clone, Copy, PartialEq, Eq, Structural, PartialOrd, Ord, Hash, Default)]
pub struct BlockHeight(pub u64);

/// Unix time in milliseconds.
#[derive(Debug, Clone, Copy, PartialEq, Eq, Structural, PartialOrd, Ord, Hash, Default)]
pub struct Timestamp(pub u64);

/// Proof-of-work nonce.
#[derive(Debug, Clone, Copy, PartialEq, Eq, Structural, PartialOrd, Ord, Hash, Default)]
pub struct Nonce(pub u64);

/// An amount of coins in the smallest unit (1 RSC = 100_000_000 rustoshi).
#[derive(Debug, Clone, Copy, PartialEq, Eq, Structural, PartialOrd, Ord, Hash, Default)]
pub struct Amount(pub u64);

/// A 20-byte wallet address.
#[derive(Debug, Clone, Copy, PartialEq, Eq, PartialOrd, Ord, Hash)]
pub struct Address(pub [u8; 20]);

impl View for Address {
    type V = Seq<u8>;

    open spec fn view(&self) -> Seq<u8> {
        self.0@
    }
}

impl From<u64> for BlockHeight {
    fn from(v: u64) -> (r: Self)
        ensures
            r.0 == v,
    {
        BlockHeight(v)
    }
}

impl vstd::std_specs::convert::FromSpecImpl<u64> for BlockHeight {
    open spec fn obeys_from_spec() -> bool {
        true
    }

    open spec fn from_spec(v: u64) -> BlockHeight {
        BlockHeight(v)
    }
}

impl From<BlockHeight> for u64 {
    fn from(h: BlockHeight) -> (r: Self)
        ensures
            r == h.0,
    {
        h.0
    }
}

impl vstd::std_specs::convert::FromSpecImpl<BlockHeight> for u64 {
    open spec fn obeys_from_spec() -> bool {
        true
    }

    open spec fn from_spec(h: BlockHeight) -> u64 {
        h.0
    }
}

#[verifier::external_type_specification]
#[verifier::external_body]
pub struct ExSystemTime(std::time::SystemTime);

/// `SystemTime::now`: nothing is claimed of the time read.
#[verifier::external_body]
fn system_time_now() -> std::time::SystemTime {
    std::time::SystemTime::now()
}

/// `SystemTime::duration_since(UNIX_EPOCH)`: the time since the epoch, or
/// `None` where `t` lies before the epoch. Nothing is claimed of which
/// comes back: that depends on the clock.
#[verifier::external_body]
fn since_epoch(t: &std::time::SystemTime) -> Option<std::time::Duration> {
    match t.duration_since(std::time::UNIX_EPOCH) {
        Ok(d) => Some(d),
        Err(_) => None,
    }
}

/// `Duration::as_millis`: the whole milliseconds of `d`. A duration is
/// opaque here, so nothing is claimed of the value.
#[verifier::external_body]
pub(crate) fn duration_millis(d: &std::time::Duration) -> u128 {
    d.as_millis()
}

/// Milliseconds cut to 64 bits: `u64::MAX` where they do not fit.
pub fn saturating_millis(m: u128) -> (r: u64)
    ensures
        r == (if m <= u64::MAX {
            m
        } else {
            u64::MAX as u128
        }),
{
    if m <= u64::MAX as u128 {
        m as u64
    } else {
        u64::MAX
    }
}

impl Timestamp {
    /// The current time: milliseconds since the Unix epoch on the system
    /// clock, `u64::MAX` where they do not fit in 64 bits, and 0 where the
    /// clock is set before the epoch.
    pub fn now() -> (r: Self) {
        let t = system_time_now();
        match since_epoch(&t) {
            Some(d) => Timestamp(saturating_millis(duration_millis(&d))),
            None => Timestamp(0),
        }
    }
}

impl Nonce {
    /// Increments the nonce by 1, wrapping on overflow.
    pub fn increment(&mut self)
        ensures
            final(self).0 == (if old(self).0 == u64::MAX {
                0
            } else {
                old(self).0 + 1
            }),
    {
        self.0 = self.0.wrapping_add(1);
    }
}

/// The checked sum of two amounts: `None` where it overflows 64 bits.
pub open spec fn checked_sum(a: Amount, b: Amount) -> Option<Amount> {
    if a.0 + b.0 <= u64::MAX {
        Some(Amount((a.0 + b.0) as u64))
    } else {
        None
    }
}

/// Checked addition of amounts does not depend on the order.
pub proof fn lemma_checked_add_commutative(a: Amount, b: Amount)
    ensures
        checked_sum(a, b) == checked_sum(b, a),
{
}

/// The number of rustoshi in one RSC.
pub const RUSTOSHI_PER_RSC: u64 = 100_000_000;

impl Amount {
    /// One RSC.
    pub fn one() -> (r: Amount)
        ensures
            r.0 == RUSTOSHI_PER_RSC,
    {
        Amount(RUSTOSHI_PER_RSC)
    }

    /// The maximal supply: 21 million RSC.
    pub fn max_supply() -> (r: Amount)
        ensures
            r.0 == 21_000_000 * RUSTOSHI_PER_RSC,
    {
        Amount(21_000_000 * RUSTOSHI_PER_RSC)
    }

    /// Checked addition; `None` on overflow.
    pub fn checked_add(self, rhs: Self) -> (r: Option<Self>)
        ensures
            r == checked_sum(self, rhs),
    {
        match self.0.checked_add(rhs.0) {
            Some(v) => Some(Amount(v)),
            None => None,
        }
    }

    /// Checked subtraction; `None` on underflow.
    pub fn checked_sub(self, rhs: Self) -> (r: Option<Self>)
        ensures
            r == (if self.0 >= rhs.0 {
                Some(Amount((self.0 - rhs.0) as u64))
            } else {
                None::<Amount>
            }),
    {
        match self.0.checked_sub(rhs.0) {
            Some(v) => Some(Amount(v)),
            None => None,
        }
    }
}

/// The version byte in front of an address in its Base58Check form.
pub const ADDRESS_VERSION: u8 = 0;

/// The Base58Check payload of an address: version byte, then the address.
pub open spec fn address_payload(a: Seq<u8>) -> Seq<u8> {
    seq![ADDRESS_VERSION] + a
}

/// The four checksum bytes of a Base58Check payload: the first four bytes
/// of its double SHA-256.
pub open spec fn checksum4(payload: Seq<u8>) -> Seq<u8> {
    sha256_spec(sha256_spec(payload)).take(4)
}

/// The Base58Check text of an address.
pub open spec fn address_base58(a: Seq<u8>) -> Seq<char> {
    bs58_encode_spec(address_payload(a) + checksum4(address_payload(a)))
}

/// What `Address::from_base58` accepts: text that decodes to 25 bytes whose
/// last four are the checksum of the first 21; the address is bytes 1..21.
/// The version byte is not checked.
pub open spec fn address_from_base58_spec(text: Seq<u8>) -> Option<Seq<u8>> {
    match bs58_decode_spec(text) {
        Some(d) => if d.len() == 25 && checksum4(d.take(21)) == d.skip(21) {
            Some(d.subrange(1, 21))
        } else {
            None
        },
        None => None,
    }
}

impl Address {
    /// The zero (burn) address.
    pub fn zero() -> (r: Address)
        ensures
            forall|i: int| 0 <= i < 20 ==> r.0@[i] == 0,
    {
        Address([0u8; 20])
    }

    /// An address from its 20 bytes.
    pub fn from_bytes(bytes: [u8; 20]) -> (r: Self)
        ensures
            r.0 == bytes,
    {
        Address(bytes)
    }

    /// The 20 bytes of the address.
    pub fn as_bytes(&self) -> (r: &[u8; 20])
        ensures
            *r == self.0,
    {
        &self.0
    }

    /// Whether two addresses hold the same bytes.
    pub fn same_as(&self, other: &Address) -> (r: bool)
        ensures
            r == (*self == *other),
    {
        let mut i: usize = 0;
        while i < 20
            invariant
                i <= 20,
                forall|k: int| 0 <= k < i ==> self.0@[k] == other.0@[k],
            decreases 20 - i,
        {
            if self.0[i] != other.0[i] {
                return false;
            }
            i = i + 1;
        }
        proof {
            assert(self.0 =~= other.0);
        }
        true
    }

    /// The Base58Check text: version byte 0, the address, and the first four
    /// bytes of the double SHA-256 of those 21 bytes, encoded in Base58.
    pub fn to_base58(&self) -> (r: String)
        ensures
            r@ == address_base58(self@),
            address_from_base58_spec(vstd::utf8::encode_utf8(r@)) == Some(self@),
    {
        let mut payload: Vec<u8> = Vec::new();
        payload.push(ADDRESS_VERSION);
        let mut i: usize = 0;
        while i < 20
            invariant
                i <= 20,
                payload@ == address_payload(self@).take(i + 1),
            decreases 20 - i,
        {
            payload.push(self.0[i]);
            i = i + 1;
            assert(payload@ =~= address_payload(self@).take(i + 1));
        }
        assert(payload@ =~= address_payload(self@));
        let first = sha256(payload.as_slice());
        let second = sha256(&first);
        let mut k: usize = 0;
        let ghost p0 = payload@;
        while k < 4
            invariant
                k <= 4,
                p0 == address_payload(self@),
                second@ == sha256_spec(sha256_spec(p0)),
                payload@ == p0 + second@.take(k as int),
            decreases 4 - k,
        {
            payload.push(second[k]);
            k = k + 1;
            assert(payload@ =~= p0 + second@.take(k as int));
        }
        let ghost d = payload@;
        assert(d.len() == 25);
        assert(d.take(21) =~= p0);
        assert(d.skip(21) =~= second@.take(4));
        assert(d.subrange(1, 21) =~= self@);
        bs58_encode(payload.as_slice())
    }

    /// Decodes the Base58Check text of an address; fails with
    /// `InvalidAddress(s)` unless the text decodes to 25 bytes whose last four
    /// are the checksum of the first 21.
    pub fn from_base58(s: &str) -> (r: Result<Self, PrimitivesError>)
        ensures
            match address_from_base58_spec(s.spec_bytes()) {
                Some(a) => r matches Ok(addr) && addr@ == a,
                None => r matches Err(PrimitivesError::InvalidAddress(t)) && t@ == s@,
            },
    {
        let decoded = match bs58_decode(s) {
            Some(d) => d,
            None => return Err(PrimitivesError::InvalidAddress(s.to_string())),
        };
        if decoded.len() != 25 {
            return Err(PrimitivesError::InvalidAddress(s.to_string()));
        }
        let mut payload: Vec<u8> = Vec::new();
        let mut i: usize = 0;
        while i < 21
            invariant
                i <= 21,
                decoded@.len() == 25,
                payload@ == decoded@.take(i as int),
            decreases 21 - i,
        {
            payload.push(decoded[i]);
            i = i + 1;
            assert(payload@ =~= decoded@.take(i as int));
        }
        assert(payload@ =~= decoded@.take(21));
        let first = sha256(payload.as_slice());
        let second = sha256(&first);
        let mut k: usize = 0;
        while k < 4
            invariant
                k <= 4,
                decoded@.len() == 25,
                second@ == sha256_spec(sha256_spec(decoded@.take(21))),
                bs58_decode_spec(s.spec_bytes()) == Some(decoded@),
                forall|j: int| 0 <= j < k ==> second@[j] == decoded@[21 + j],
            decreases 4 - k,
        {
            if second[k] != decoded[21 + k] {
                proof {
                    assert(checksum4(decoded@.take(21))[k as int] != decoded@.skip(21)[k as int]);
                    assert(checksum4(decoded@.take(21)) != decoded@.skip(21));
                }
                return Err(PrimitivesError::InvalidAddress(s.to_string()));
            }
            k = k + 1;
        }
        assert(checksum4(decoded@.take(21)) =~= decoded@.skip(21));
        let mut bytes = [0u8; 20];
        let mut j: usize = 0;
        while j < 20
            invariant
                j <= 20,
                decoded@.len() == 25,
                forall|m: int| 0 <= m < j ==> bytes@[m] == decoded@[m + 1],
            decreases 20 - j,
        {
            bytes[j] = decoded[j + 1];
            j = j + 1;
        }
        assert(bytes@ =~= decoded@.subrange(1, 21));
        Ok(Address(bytes))
    }
}

} // verus!
