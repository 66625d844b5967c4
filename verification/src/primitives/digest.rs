//! The hash functions and text codecs that the chain relies on, each
//! called in its outside crate.
use crate::primitives::error::HexError;
use vstd::prelude::*;
use vstd::string::StringSliceAdditionalSpecFns;

verus! {

/// What SHA-256 (crate `sha2`) returns for the given bytes.
pub uninterp spec fn sha256_spec(data: Seq<u8>) -> Seq<u8>;

/// What RIPEMD-160 (crate `ripemd`) returns for the given bytes.
pub uninterp spec fn ripemd160_spec(data: Seq<u8>) -> Seq<u8>;

/// What `bs58::encode(..).into_string()` returns for the given bytes.
pub uninterp spec fn bs58_encode_spec(data: Seq<u8>) -> Seq<char>;

/// What `bs58::decode(..).into_vec()` returns for the given bytes of text:
/// the decoded bytes, or `None` where the text is not valid Base58.
pub uninterp spec fn bs58_decode_spec(text: Seq<u8>) -> Option<Seq<u8>>;

/// `sha2::Sha256::digest`: the contract claims only that the 32 bytes
/// returned are the SHA-256 digest of `data`, a function of `data` alone.
#[verifier::external_body]
pub(crate) fn sha256(data: &[u8]) -> (r: [u8; 32])
    ensures
        r@ == sha256_spec(data@),
{
    <sha2::Sha256 as sha2::Digest>::digest(data).into()
}

/// `ripemd::Ripemd160::digest`: the contract claims only that the 20 bytes
/// returned are the RIPEMD-160 digest of `data`, a function of `data` alone.
#[verifier::external_body]
pub(crate) fn ripemd160(data: &[u8]) -> (r: [u8; 20])
    ensures
        r@ == ripemd160_spec(data@),
{
    <ripemd::Ripemd160 as ripemd::Digest>::digest(data).into()
}

/// The lowercase hex digit for a value below 16.
pub open spec fn hex_digit(v: int) -> char {
    if v < 10 {
        (48 + v) as char
    } else {
        (87 + v) as char
    }
}

/// Two lowercase hex digits per byte, most significant digit first.
pub open spec fn hex_lower(data: Seq<u8>) -> Seq<char>
    decreases data.len(),
{
    if data.len() == 0 {
        seq![]
    } else {
        hex_lower(data.drop_last()) + seq![
            hex_digit(data.last() as int / 16),
            hex_digit(data.last() as int % 16),
        ]
    }
}

/// Whether a character is a lowercase hex digit.
pub open spec fn is_hex_lower_char(c: char) -> bool {
    ('0' <= c <= '9') || ('a' <= c <= 'f')
}

proof fn lemma_hex_digit(v: int)
    requires
        0 <= v < 16,
    ensures
        is_hex_lower_char(hex_digit(v)),
        hex_value(hex_digit(v) as u8) == Some(v as u8),
{
    if v < 10 {
        assert(hex_digit(v) as int == 48 + v);
    } else {
        assert(hex_digit(v) as int == 87 + v);
    }
}

/// The shape of `hex_lower`: two digits per byte, high digit first.
pub proof fn lemma_hex_lower_shape(b: Seq<u8>)
    ensures
        hex_lower(b).len() == 2 * b.len(),
        forall|k: int|
            0 <= k < b.len() ==> #[trigger] hex_lower(b)[2 * k] == hex_digit(b[k] as int / 16)
                && hex_lower(b)[2 * k + 1] == hex_digit(b[k] as int % 16),
    decreases b.len(),
{
    if b.len() > 0 {
        let p = b.drop_last();
        lemma_hex_lower_shape(p);
        let h = hex_lower(b);
        assert forall|k: int| 0 <= k < b.len() implies #[trigger] h[2 * k] == hex_digit(
            b[k] as int / 16,
        ) && h[2 * k + 1] == hex_digit(b[k] as int % 16) by {
            if k < p.len() {
                assert(hex_lower(p)[2 * k] == hex_digit(p[k] as int / 16));
                assert(h[2 * k] == hex_lower(p)[2 * k]);
                assert(h[2 * k + 1] == hex_lower(p)[2 * k + 1]);
            }
        }
    }
}

proof fn lemma_first_non_hex_none(t: Seq<u8>, i: int)
    requires
        0 <= i,
        forall|j: int| i <= j < t.len() ==> #[trigger] hex_value(t[j]) is Some,
    ensures
        first_non_hex(t, i) is None,
    decreases t.len() - i,
{
    if i < t.len() {
        lemma_first_non_hex_none(t, i + 1);
    }
}

/// Decoding the lowercase hex text of bytes gives the bytes back.
pub proof fn lemma_hex_roundtrip(b: Seq<u8>)
    ensures
        hex_decode_spec(vstd::utf8::encode_utf8(hex_lower(b))) == Ok::<Seq<u8>, HexError>(b),
{
    let cs = hex_lower(b);
    lemma_hex_lower_shape(b);
    assert forall|i: int| 0 <= i < cs.len() implies is_hex_lower_char(#[trigger] cs[i]) by {
        let k = i / 2;
        assert(0 <= k < b.len());
        assert(hex_lower(b)[2 * k] == hex_digit(b[k] as int / 16));
        lemma_hex_digit(b[k] as int / 16);
        lemma_hex_digit(b[k] as int % 16);
        if i % 2 == 0 {
            assert(i == 2 * k);
        } else {
            assert(i == 2 * k + 1);
        }
    }
    assert(vstd::utf8::is_ascii_chars(cs));
    vstd::utf8::is_ascii_chars_encode_utf8(cs);
    let t = vstd::utf8::encode_utf8(cs);
    assert forall|k: int| 0 <= k < b.len() implies #[trigger] hex_value(t[2 * k]) == Some(
        (b[k] / 16) as u8,
    ) && hex_value(t[2 * k + 1]) == Some((b[k] % 16) as u8) by {
        lemma_hex_digit(b[k] as int / 16);
        lemma_hex_digit(b[k] as int % 16);
        assert(t[2 * k] == cs[2 * k] as u8);
        assert(t[2 * k + 1] == cs[2 * k + 1] as u8);
    }
    assert forall|j: int| 0 <= j < t.len() implies #[trigger] hex_value(t[j]) is Some by {
        let k = j / 2;
        if j % 2 == 0 {
            assert(j == 2 * k);
            assert(hex_value(t[2 * k]) is Some);
        } else {
            assert(j == 2 * k + 1);
            assert(hex_value(t[2 * k]) is Some);
        }
    }
    lemma_first_non_hex_none(t, 0);
    let d = Seq::new(
        t.len() / 2,
        |k: int| (hex_value(t[2 * k]).unwrap() * 16 + hex_value(t[2 * k + 1]).unwrap()) as u8,
    );
    assert forall|k: int| 0 <= k < b.len() implies #[trigger] d[k] == b[k] by {
        assert(hex_value(t[2 * k]) == Some((b[k] / 16) as u8));
        assert(hex_value(t[2 * k + 1]) == Some((b[k] % 16) as u8));
    }
    assert(d =~= b);
}

/// `hex::encode`: the contract claims that the text returned holds two
/// lowercase hex digits per byte, in order (the crate's `HEX_CHARS_LOWER`).
#[verifier::external_body]
pub(crate) fn hex_encode(data: &[u8]) -> (r: String)
    ensures
        r@ == hex_lower(data@),
{
    hex::encode(data)
}

/// The value of one hex digit, upper or lower case.
pub open spec fn hex_value(c: u8) -> Option<u8> {
    if 48 <= c <= 57 {
        Some((c - 48) as u8)
    } else if 65 <= c <= 70 {
        Some((c - 55) as u8)
    } else if 97 <= c <= 102 {
        Some((c - 87) as u8)
    } else {
        None
    }
}

/// The first index at or after `i` that does not hold a hex digit, if any.
pub open spec fn first_non_hex(data: Seq<u8>, i: int) -> Option<int>
    decreases data.len() - i,
{
    if i >= data.len() || i < 0 {
        None
    } else if hex_value(data[i]) is None {
        Some(i)
    } else {
        first_non_hex(data, i + 1)
    }
}

/// What `hex::decode` returns for the given bytes of text.
pub open spec fn hex_decode_spec(data: Seq<u8>) -> Result<Seq<u8>, HexError> {
    if data.len() % 2 != 0 {
        Err(HexError::OddLength)
    } else {
        match first_non_hex(data, 0) {
            Some(i) => Err(HexError::InvalidHexCharacter { c: data[i] as char, index: i as usize }),
            None => Ok(
                Seq::new(
                    data.len() / 2,
                    |k: int|
                        (hex_value(data[2 * k]).unwrap() * 16 + hex_value(
                            data[2 * k + 1],
                        ).unwrap()) as u8,
                ),
            ),
        }
    }
}

/// `hex::decode`: the contract claims that the call fails with `OddLength`
/// on an odd number of bytes, else with the first byte that is no hex digit,
/// else returns one byte per pair of digits (upper or lower case).
#[verifier::external_body]
pub(crate) fn hex_decode(data: &[u8]) -> (r: Result<Vec<u8>, HexError>)
    ensures
        match r {
            Ok(v) => hex_decode_spec(data@) == Ok::<Seq<u8>, HexError>(v@),
            Err(e) => hex_decode_spec(data@) == Err::<Seq<u8>, HexError>(e),
        },
{
    match hex::decode(data) {
        Ok(v) => Ok(v),
        Err(hex::FromHexError::InvalidHexCharacter { c, index }) => Err(
            HexError::InvalidHexCharacter { c, index },
        ),
        Err(hex::FromHexError::OddLength) => Err(HexError::OddLength),
        Err(hex::FromHexError::InvalidStringLength) => Err(HexError::InvalidStringLength),
    }
}

/// `bs58::encode(..).into_string()` with the Bitcoin alphabet: the contract
/// claims that the text is a function of `data` alone, and that decoding it
/// gives `data` back, as the crate's documented round trip shows.
#[verifier::external_body]
pub(crate) fn bs58_encode(data: &[u8]) -> (r: String)
    ensures
        r@ == bs58_encode_spec(data@),
        bs58_decode_spec(vstd::utf8::encode_utf8(r@)) == Some(data@),
{
    bs58::encode(data).into_string()
}

/// `bs58::decode(..).into_vec()` with the Bitcoin alphabet: the contract
/// claims that the result is a function of the text's bytes alone; the
/// crate's error value is returned as `None`.
#[verifier::external_body]
pub(crate) fn bs58_decode(text: &str) -> (r: Option<Vec<u8>>)
    ensures
        match r {
            Some(v) => bs58_decode_spec(text.spec_bytes()) == Some(v@),
            None => bs58_decode_spec(text.spec_bytes()) is None,
        },
{
    bs58::decode(text).into_vec().ok()
}

} // verus!
