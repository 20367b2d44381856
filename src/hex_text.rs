//! Hexadecimal text: what a valid hex string is, what it decodes to, and what
//! a byte sequence encodes to.

use vstd::prelude::*;

verus! {

/// A character that hex text may hold: a decimal digit or a letter `a`..`f`
/// in either case.
pub open spec fn is_hex_digit(c: char) -> bool {
    ('0' <= c && c <= '9') || ('a' <= c && c <= 'f') || ('A' <= c && c <= 'F')
}

/// The value of one hex digit.
pub open spec fn hex_digit_value(c: char) -> nat {
    if '0' <= c && c <= '9' {
        (c as nat - '0' as nat) as nat
    } else if 'a' <= c && c <= 'f' {
        (c as nat - 'a' as nat + 10) as nat
    } else {
        (c as nat - 'A' as nat + 10) as nat
    }
}

/// Text that decodes: an even number of hex digits.
pub open spec fn is_valid_hex(s: Seq<char>) -> bool {
    &&& s.len() % 2 == 0
    &&& forall|i: int| 0 <= i < s.len() ==> #[trigger] is_hex_digit(s[i])
}

/// The bytes that valid hex text stands for: each pair of digits, high digit
/// first, gives one byte.
pub open spec fn hex_decoded(s: Seq<char>) -> Seq<u8> {
    Seq::new(
        s.len() / 2,
        |i: int| (hex_digit_value(s[2 * i]) * 16 + hex_digit_value(s[2 * i + 1])) as u8,
    )
}

/// What a hex decoder yields for `s`: the bytes, or nothing when `s` is not
/// valid hex.
pub open spec fn hex_decode_result(s: Seq<char>) -> Option<Seq<u8>> {
    if is_valid_hex(s) {
        Some(hex_decoded(s))
    } else {
        None
    }
}

/// The lower-case digit for a value below sixteen.
pub open spec fn lower_hex_digit(v: nat) -> char {
    if v < 10 {
        ('0' as nat + v) as char
    } else {
        ('a' as nat + v - 10) as char
    }
}

/// Lower-case hex text for `b`: two digits per byte, high digit first.
pub open spec fn hex_encoded(b: Seq<u8>) -> Seq<char> {
    Seq::new(
        2 * b.len(),
        |i: int|
            if i % 2 == 0 {
                lower_hex_digit(b[i / 2] as nat / 16)
            } else {
                lower_hex_digit(b[i / 2] as nat % 16)
            },
    )
}

/// A lower-case digit is a hex digit that reads back as its value.
pub proof fn lemma_lower_digit_reads_back(v: nat)
    requires
        v < 16,
    ensures
        is_hex_digit(lower_hex_digit(v)),
        hex_digit_value(lower_hex_digit(v)) == v,
{
}

/// Encoding bytes as hex and decoding the text gives the bytes back.
pub proof fn lemma_hex_round_trip(b: Seq<u8>)
    ensures
        hex_decode_result(hex_encoded(b)) == Some(b),
{
    let s = hex_encoded(b);
    assert forall|i: int| 0 <= i < s.len() implies #[trigger] is_hex_digit(s[i]) by {
        let v = b[i / 2] as nat;
        lemma_lower_digit_reads_back(v / 16);
        lemma_lower_digit_reads_back(v % 16);
    }
    assert forall|k: int| 0 <= k < b.len() implies #[trigger] hex_decoded(s)[k] == b[k] by {
        let v = b[k] as nat;
        assert((2 * k) / 2 == k && (2 * k) % 2 == 0 && (2 * k + 1) / 2 == k && (2 * k + 1) % 2
            == 1) by (nonlinear_arith);
        lemma_lower_digit_reads_back(v / 16);
        lemma_lower_digit_reads_back(v % 16);
        assert(v / 16 * 16 + v % 16 == v) by (nonlinear_arith);
    }
    assert(hex_decoded(s) =~= b);
}

/// Relies on `hex::decode`: it accepts an even number of digits of either
/// case (any other byte, or an odd length, is an error) and turns each pair
/// into one byte, high digit first.
#[verifier::external_body]
pub(crate) fn decode_hex(s: &str) -> (r: Option<Vec<u8>>)
    ensures
        match r {
            Some(v) => hex_decode_result(s@) == Some(v@),
            None => hex_decode_result(s@) is None,
        },
{
    hex::decode(s).ok()
}

/// Relies on `hex::encode`: two lower-case digits per byte, high digit first.
#[verifier::external_body]
pub(crate) fn encode_hex(b: &[u8]) -> (r: String)
    ensures
        r@ == hex_encoded(b@),
{
    hex::encode(b)
}

} // verus!
