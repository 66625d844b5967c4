//! The JSON text that `serde_json` writes for the chain's types: the bytes
//! that are hashed into transaction ids and block hashes, and whose length
//! sets a transaction's fee per byte.
use vstd::prelude::*;
use vstd::string::StringSliceAdditionalSpecFns;

verus! {

/// The ASCII digits of `n` in decimal, without leading zeros.
pub open spec fn dec(n: nat) -> Seq<u8>
    decreases n,
{
    if n < 10 {
        seq![(n + 48) as u8]
    } else {
        dec(n / 10).push((n % 10 + 48) as u8)
    }
}

/// The bytes of a text.
pub open spec fn lit(s: &str) -> Seq<u8> {
    s.spec_bytes()
}

/// The JSON literal `null`.
pub open spec fn json_null() -> Seq<u8> {
    lit("null")
}

/// The numbers of `s` in decimal, separated by commas.
pub open spec fn json_items(s: Seq<u8>) -> Seq<u8>
    decreases s.len(),
{
    if s.len() == 0 {
        seq![]
    } else if s.len() == 1 {
        dec(s[0] as nat)
    } else {
        json_items(s.drop_last()) + seq![44u8] + dec(s.last() as nat)
    }
}

/// A byte sequence as a JSON array of numbers, as `serde_json` writes a
/// `Vec<u8>` or a `[u8; N]`.
pub open spec fn json_bytes(s: Seq<u8>) -> Seq<u8> {
    seq![91u8] + json_items(s) + seq![93u8]
}

/// An optional byte sequence: `null`, or the array.
pub open spec fn json_opt_bytes(o: Option<Seq<u8>>) -> Seq<u8> {
    match o {
        Some(s) => json_bytes(s),
        None => json_null(),
    }
}

/// The lowercase hex digit of a value below 16, as a byte.
pub open spec fn hex_byte(v: int) -> u8 {
    if v < 10 {
        (48 + v) as u8
    } else {
        (87 + v) as u8
    }
}

/// How `serde_json` writes one byte inside a string: quote, backslash and
/// the control bytes below 0x20 are escaped; every other byte is written as
/// it is.
pub open spec fn escape_byte(b: u8) -> Seq<u8> {
    if b == 34 {
        seq![92u8, 34u8]
    } else if b == 92 {
        seq![92u8, 92u8]
    } else if b == 8 {
        seq![92u8, 98u8]
    } else if b == 9 {
        seq![92u8, 116u8]
    } else if b == 10 {
        seq![92u8, 110u8]
    } else if b == 12 {
        seq![92u8, 102u8]
    } else if b == 13 {
        seq![92u8, 114u8]
    } else if b < 32 {
        seq![92u8, 117u8, 48u8, 48u8, hex_byte(b as int / 16), hex_byte(b as int % 16)]
    } else {
        seq![b]
    }
}

/// The escaped bytes of a text.
pub open spec fn escape_all(s: Seq<u8>) -> Seq<u8>
    decreases s.len(),
{
    if s.len() == 0 {
        seq![]
    } else {
        escape_all(s.drop_last()) + escape_byte(s.last())
    }
}

/// A text (given by its UTF-8 bytes) as a JSON string.
pub open spec fn json_string(s: Seq<u8>) -> Seq<u8> {
    seq![34u8] + escape_all(s) + seq![34u8]
}

/// Appends the bytes of `s`.
pub fn push_str(out: &mut Vec<u8>, s: &str)
    ensures
        final(out)@ == old(out)@ + lit(s),
{
    let b = s.as_bytes();
    let ghost start = out@;
    let mut i: usize = 0;
    while i < b.len()
        invariant
            i <= b@.len(),
            b@ == s.spec_bytes(),
            out@ == start + b@.take(i as int),
        decreases b@.len() - i,
    {
        out.push(b[i]);
        i = i + 1;
        assert(out@ =~= start + b@.take(i as int));
    }
    assert(b@.take(b@.len() as int) =~= b@);
}

/// Appends `n` in decimal.
pub fn push_dec(out: &mut Vec<u8>, n: u64)
    ensures
        final(out)@ == old(out)@ + dec(n as nat),
    decreases n,
{
    if n >= 10 {
        push_dec(out, n / 10);
    }
    let d: u8 = (n % 10) as u8 + 48;
    out.push(d);
    assert(n < 10 ==> out@ =~= old(out)@ + dec(n as nat));
    assert(n >= 10 ==> out@ =~= old(out)@ + dec(n as nat));
}

/// Appends a byte sequence as a JSON array of numbers.
pub fn push_bytes(out: &mut Vec<u8>, data: &[u8])
    ensures
        final(out)@ == old(out)@ + json_bytes(data@),
{
    let ghost start = out@;
    out.push(91u8);
    let mut i: usize = 0;
    while i < data.len()
        invariant
            i <= data@.len(),
            out@ == start + seq![91u8] + json_items(data@.take(i as int)),
        decreases data@.len() - i,
    {
        let ghost before = out@;
        if i > 0 {
            out.push(44u8);
        }
        push_dec(out, data[i] as u64);
        i = i + 1;
        proof {
            let t = data@.take(i as int);
            assert(t.drop_last() =~= data@.take(i - 1));
            if i == 1 {
                assert(data@.take(0) =~= Seq::<u8>::empty());
                assert(out@ =~= start + seq![91u8] + json_items(t));
            } else {
                assert(out@ =~= start + seq![91u8] + json_items(t));
            }
        }
    }
    out.push(93u8);
    assert(data@.take(data@.len() as int) =~= data@);
    assert(out@ =~= start + json_bytes(data@));
}

/// Appends an optional byte sequence: `null` or the array.
pub fn push_opt_bytes(out: &mut Vec<u8>, data: &Option<Vec<u8>>)
    ensures
        final(out)@ == old(out)@ + json_opt_bytes(
            match data {
                Some(v) => Some(v@),
                None => None,
            },
        ),
{
    match data {
        Some(v) => push_bytes(out, v.as_slice()),
        None => push_str(out, "null"),
    }
}

/// Appends one byte as it is written inside a JSON string.
pub fn push_escaped_byte(out: &mut Vec<u8>, b: u8)
    ensures
        final(out)@ == old(out)@ + escape_byte(b),
{
    let ghost start = out@;
    if b == 34 {
        out.push(92u8);
        out.push(34u8);
    } else if b == 92 {
        out.push(92u8);
        out.push(92u8);
    } else if b == 8 {
        out.push(92u8);
        out.push(98u8);
    } else if b == 9 {
        out.push(92u8);
        out.push(116u8);
    } else if b == 10 {
        out.push(92u8);
        out.push(110u8);
    } else if b == 12 {
        out.push(92u8);
        out.push(102u8);
    } else if b == 13 {
        out.push(92u8);
        out.push(114u8);
    } else if b < 32 {
        let hi: u8 = b / 16;
        let lo: u8 = b % 16;
        out.push(92u8);
        out.push(117u8);
        out.push(48u8);
        out.push(48u8);
        out.push(if hi < 10 { 48 + hi } else { 87 + hi });
        out.push(if lo < 10 { 48 + lo } else { 87 + lo });
    } else {
        out.push(b);
    }
    assert(out@ =~= start + escape_byte(b));
}

/// Appends a text (given by its UTF-8 bytes) as a JSON string.
pub fn push_json_string(out: &mut Vec<u8>, s: &[u8])
    ensures
        final(out)@ == old(out)@ + json_string(s@),
{
    let ghost start = out@;
    out.push(34u8);
    let mut i: usize = 0;
    while i < s.len()
        invariant
            i <= s@.len(),
            out@ == start + seq![34u8] + escape_all(s@.take(i as int)),
        decreases s@.len() - i,
    {
        push_escaped_byte(out, s[i]);
        i = i + 1;
        assert(s@.take(i as int).drop_last() =~= s@.take(i - 1));
        assert(out@ =~= start + seq![34u8] + escape_all(s@.take(i as int)));
    }
    out.push(34u8);
    assert(s@.take(s@.len() as int) =~= s@);
    assert(out@ =~= start + json_string(s@));
}

} // verus!
