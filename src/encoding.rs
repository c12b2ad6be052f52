//! Byte-level encodings used by the signing scheme: percent-encoding of
//! parameter names and values, lower-case hex of a digest, decimal digits of
//! an integer and ASCII lower-casing of a host name.
use vstd::prelude::*;
use vstd::utf8::encode_utf8;
use vstd::string::StringSliceAdditionalSpecFns;

verus! {

/// Bytes that percent-encoding leaves as they are: letters, digits and `-_.~`.
pub open spec fn is_unreserved(b: u8) -> bool {
    (65 <= b <= 90) || (97 <= b <= 122) || (48 <= b <= 57) || b == 45 || b == 95 || b == 46
        || b == 126
}

/// Upper-case hex digit of a nibble.
pub open spec fn upper_hex_digit(n: u8) -> u8
    recommends
        n < 16,
{
    if n < 10 {
        (48 + n) as u8
    } else {
        (55 + n) as u8
    }
}

/// Lower-case hex digit of a nibble.
pub open spec fn lower_hex_digit(n: u8) -> u8
    recommends
        n < 16,
{
    if n < 10 {
        (48 + n) as u8
    } else {
        (87 + n) as u8
    }
}

/// The encoding of one byte: itself if unreserved, else `%` and two upper-case hex digits.
pub open spec fn percent_byte(b: u8) -> Seq<u8> {
    if is_unreserved(b) {
        seq![b]
    } else {
        seq![37u8, upper_hex_digit(b / 16), upper_hex_digit(b % 16)]
    }
}

/// Percent-encoding of a byte string, byte by byte.
pub open spec fn percent_encode(s: Seq<u8>) -> Seq<u8>
    decreases s.len(),
{
    if s.len() == 0 {
        Seq::empty()
    } else {
        percent_encode(s.drop_last()) + percent_byte(s.last())
    }
}

/// Lower-case hex of a byte string, two digits per byte, high nibble first.
pub open spec fn hex_lower(s: Seq<u8>) -> Seq<u8>
    decreases s.len(),
{
    if s.len() == 0 {
        Seq::empty()
    } else {
        hex_lower(s.drop_last()) + seq![lower_hex_digit(s.last() / 16), lower_hex_digit(s.last() % 16)]
    }
}

/// Decimal digits of a natural number, without leading zeros (`0` for zero).
pub open spec fn decimal(n: nat) -> Seq<u8>
    decreases n,
{
    if n < 10 {
        seq![(48 + n) as u8]
    } else {
        decimal(n / 10) + seq![(48 + n % 10) as u8]
    }
}

/// ASCII lower-casing of one byte; other bytes are unchanged.
pub open spec fn ascii_lower_byte(b: u8) -> u8 {
    if 65 <= b <= 90 {
        (b + 32) as u8
    } else {
        b
    }
}

/// ASCII lower-casing of a byte string.
pub open spec fn ascii_lower(s: Seq<u8>) -> Seq<u8> {
    s.map_values(|b: u8| ascii_lower_byte(b))
}

fn upper_hex(n: u8) -> (r: u8)
    requires
        n < 16,
    ensures
        r == upper_hex_digit(n),
{
    if n < 10 {
        48 + n
    } else {
        55 + n
    }
}

fn lower_hex(n: u8) -> (r: u8)
    requires
        n < 16,
    ensures
        r == lower_hex_digit(n),
{
    if n < 10 {
        48 + n
    } else {
        87 + n
    }
}

fn unreserved(b: u8) -> (r: bool)
    ensures
        r == is_unreserved(b),
{
    (65 <= b && b <= 90) || (97 <= b && b <= 122) || (48 <= b && b <= 57) || b == 45 || b == 95
        || b == 46 || b == 126
}

/// Appends the percent-encoding of `s` to `out`.
pub fn push_percent_encoded(out: &mut Vec<u8>, s: &[u8])
    ensures
        final(out)@ == old(out)@ + percent_encode(s@),
{
    let ghost start = out@;
    let mut i: usize = 0;
    while i < s.len()
        invariant
            i <= s@.len(),
            out@ == start + percent_encode(s@.subrange(0, i as int)),
        decreases s@.len() - i,
    {
        let b = s[i];
        if unreserved(b) {
            out.push(b);
        } else {
            out.push(37u8);
            out.push(upper_hex(b / 16));
            out.push(upper_hex(b % 16));
        }
        proof {
            let next = s@.subrange(0, i + 1);
            assert(next.drop_last() =~= s@.subrange(0, i as int));
            assert(out@ =~= start + percent_encode(next));
        }
        i = i + 1;
    }
    assert(s@.subrange(0, s@.len() as int) =~= s@);
}

/// Percent-encoding of `s` as a new byte vector.
pub fn percent_encoded(s: &[u8]) -> (r: Vec<u8>)
    ensures
        r@ == percent_encode(s@),
{
    let mut out: Vec<u8> = Vec::new();
    push_percent_encoded(&mut out, s);
    assert(out@ =~= percent_encode(s@));
    out
}

/// Lower-case hex of `s`.
pub fn to_hex_lower(s: &[u8]) -> (r: Vec<u8>)
    ensures
        r@ == hex_lower(s@),
{
    let mut out: Vec<u8> = Vec::new();
    let mut i: usize = 0;
    while i < s.len()
        invariant
            i <= s@.len(),
            out@ == hex_lower(s@.subrange(0, i as int)),
        decreases s@.len() - i,
    {
        let b = s[i];
        out.push(lower_hex(b / 16));
        out.push(lower_hex(b % 16));
        proof {
            let next = s@.subrange(0, i + 1);
            assert(next.drop_last() =~= s@.subrange(0, i as int));
            assert(out@ =~= hex_lower(next));
        }
        i = i + 1;
    }
    assert(s@.subrange(0, s@.len() as int) =~= s@);
    out
}

/// Appends the decimal digits of `n` to `out`.
pub fn push_decimal(out: &mut Vec<u8>, n: u64)
    ensures
        final(out)@ == old(out)@ + decimal(n as nat),
    decreases n,
{
    if n >= 10 {
        push_decimal(out, n / 10);
    }
    out.push(48 + (n % 10) as u8);
    assert(out@ =~= old(out)@ + decimal(n as nat));
}

/// ASCII lower-casing of `s`.
pub fn to_ascii_lower(s: &[u8]) -> (r: Vec<u8>)
    ensures
        r@ == ascii_lower(s@),
{
    let mut out: Vec<u8> = Vec::new();
    let mut i: usize = 0;
    while i < s.len()
        invariant
            i <= s@.len(),
            out@ =~= ascii_lower(s@.subrange(0, i as int)),
        decreases s@.len() - i,
    {
        let b = s[i];
        let l = if 65 <= b && b <= 90 {
            b + 32
        } else {
            b
        };
        out.push(l);
        i = i + 1;
        assert(out@ =~= ascii_lower(s@.subrange(0, i as int)));
    }
    assert(s@.subrange(0, s@.len() as int) =~= s@);
    out
}

/// The UTF-8 bytes of `s`, as an owned vector.
pub fn utf8_bytes(s: &str) -> (r: Vec<u8>)
    ensures
        r@ == encode_utf8(s@),
{
    let b = s.as_bytes();
    let mut out: Vec<u8> = Vec::new();
    let mut i: usize = 0;
    while i < b.len()
        invariant
            i <= b@.len(),
            b@ == encode_utf8(s@),
            out@ == b@.subrange(0, i as int),
        decreases b@.len() - i,
    {
        out.push(b[i]);
        i = i + 1;
        assert(out@ =~= b@.subrange(0, i as int));
    }
    assert(b@.subrange(0, b@.len() as int) =~= b@);
    out
}

} // verus!
