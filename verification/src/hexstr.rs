//! Hexadecimal rendering of wire values.
//!
//! Wire points travel inside documents as `0x`-prefixed hexadecimal
//! strings. This module handles the digit pairs; the point types add the
//! prefix handling.
use vstd::prelude::*;

verus! {

/// Whether a byte is an ASCII hexadecimal digit, in either case.
pub open spec fn is_hex_digit(b: u8) -> bool {
    (0x30 <= b && b <= 0x39) || (0x61 <= b && b <= 0x66) || (0x41 <= b && b <= 0x46)
}

/// The value of an ASCII hexadecimal digit.
pub open spec fn hex_val(b: u8) -> u8 {
    if 0x30 <= b && b <= 0x39 {
        (b - 0x30) as u8
    } else if 0x61 <= b && b <= 0x66 {
        (b - 0x61 + 10) as u8
    } else {
        (b - 0x41 + 10) as u8
    }
}

/// The lower-case ASCII digit of a value below sixteen.
pub open spec fn hex_digit_lower(v: u8) -> u8 {
    if v < 10 {
        (0x30 + v) as u8
    } else {
        (0x61 + (v - 10)) as u8
    }
}

/// Whether a byte string is a well-formed run of hexadecimal digit pairs.
pub open spec fn hex_pairs_ok(s: Seq<u8>) -> bool {
    s.len() % 2 == 0 && forall|i: int| 0 <= i < s.len() ==> is_hex_digit(#[trigger] s[i])
}

/// The bytes denoted by a run of hexadecimal digit pairs.
pub open spec fn hex_decoded(s: Seq<u8>) -> Seq<u8> {
    Seq::new((s.len() / 2) as nat, |i: int| (hex_val(s[2 * i]) * 16 + hex_val(s[2 * i + 1])) as u8)
}

/// The lower-case hexadecimal rendering of a byte string.
pub open spec fn hex_encoded(b: Seq<u8>) -> Seq<u8> {
    Seq::new((2 * b.len()) as nat, |i: int| {
        if i % 2 == 0 {
            hex_digit_lower(b[i / 2] / 16)
        } else {
            hex_digit_lower(b[i / 2] % 16)
        }
    })
}

/// Parses a run of hexadecimal digit pairs; `None` exactly on malformed
/// input (odd length or a byte that is no hexadecimal digit).
pub fn decode_hex_digits(s: &[u8]) -> (r: Option<Vec<u8>>)
    ensures
        r is Some <==> hex_pairs_ok(s@),
        r matches Some(v) ==> v@ == hex_decoded(s@),
{
    if s.len() % 2 != 0 {
        return None;
    }
    let mut out: Vec<u8> = Vec::new();
    let n = s.len() / 2;
    let mut i: usize = 0;
    while i < n
        invariant
            0 <= i <= n,
            n <= usize::MAX / 2,
            n == s@.len() / 2,
            s@.len() % 2 == 0,
            out@.len() == i,
            forall|j: int| 0 <= j < 2 * i ==> is_hex_digit(#[trigger] s@[j]),
            forall|j: int| 0 <= j < i ==> out@[j] == hex_decoded(s@)[j],
        decreases n - i,
    {
        let hi = s[2 * i];
        let lo = s[2 * i + 1];
        let hv = match hex_digit_value(hi) {
            Some(v) => v,
            None => { return None; },
        };
        let lv = match hex_digit_value(lo) {
            Some(v) => v,
            None => { return None; },
        };
        out.push(hv * 16 + lv);
        i = i + 1;
    }
    Some(out)
}

/// Parses one ASCII hexadecimal digit; `None` exactly on other bytes.
pub fn hex_digit_value(b: u8) -> (r: Option<u8>)
    ensures
        r is Some <==> is_hex_digit(b),
        r matches Some(v) ==> v == hex_val(b) && v < 16,
{
    if 0x30 <= b && b <= 0x39 {
        Some(b - 0x30)
    } else if 0x61 <= b && b <= 0x66 {
        Some(b - 0x61 + 10)
    } else if 0x41 <= b && b <= 0x46 {
        Some(b - 0x41 + 10)
    } else {
        None
    }
}

/// Renders a byte string as lower-case hexadecimal digit pairs.
pub fn encode_hex_digits(b: &[u8]) -> (r: Vec<u8>)
    ensures
        r@ == hex_encoded(b@),
{
    let mut out: Vec<u8> = Vec::new();
    let mut i: usize = 0;
    while i < b.len()
        invariant
            0 <= i <= b@.len(),
            out@.len() == 2 * i,
            forall|j: int| 0 <= j < 2 * i ==> out@[j] == hex_encoded(b@)[j],
        decreases b@.len() - i,
    {
        let by = b[i];
        out.push(hex_digit_lower_exec(by / 16));
        out.push(hex_digit_lower_exec(by % 16));
        i = i + 1;
    }
    assert(out@ =~= hex_encoded(b@));
    out
}

/// The executable form of `hex_digit_lower`.
fn hex_digit_lower_exec(v: u8) -> (r: u8)
    requires
        v < 16,
    ensures
        r == hex_digit_lower(v),
{
    if v < 10 {
        0x30 + v
    } else {
        0x61 + (v - 10)
    }
}

/// Parsing the rendering of any byte string gives the bytes back.
pub proof fn lemma_hex_round_trip(b: Seq<u8>)
    ensures
        hex_pairs_ok(hex_encoded(b)),
        hex_decoded(hex_encoded(b)) == b,
{
    let s = hex_encoded(b);
    assert forall|i: int| 0 <= i < s.len() implies is_hex_digit(#[trigger] s[i]) by {
        let v = if i % 2 == 0 {
            b[i / 2] / 16
        } else {
            b[i / 2] % 16
        };
        assert(v < 16);
    }
    assert forall|i: int| 0 <= i < b.len() implies hex_decoded(s)[i] == b[i] by {
        let hi = b[i] / 16;
        let lo = b[i] % 16;
        assert(hi < 16 && lo < 16);
        assert(hex_val(hex_digit_lower(hi)) == hi);
        assert(hex_val(hex_digit_lower(lo)) == lo);
        assert(s[2 * i] == hex_digit_lower(hi));
        assert(s[2 * i + 1] == hex_digit_lower(lo));
        assert(hi * 16 + lo == b[i]);
    }
    assert(hex_decoded(s) =~= b);
}

} // verus!
