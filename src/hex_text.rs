//! Hexadecimal text: which byte strings are hex, and what bytes they spell.

use vstd::prelude::*;

verus! {

/// The error of `hex::decode`, carried through unopened: only whether decoding
/// failed matters here.
#[verifier::external_type_specification]
#[verifier::external_body]
pub struct ExFromHexError(hex::FromHexError);

/// The value of one ASCII hex digit, either case; `None` for any other byte.
pub open spec fn hex_digit_value(c: u8) -> Option<u8> {
    if 0x30 <= c <= 0x39 {
        Some((c - 0x30) as u8)
    } else if 0x41 <= c <= 0x46 {
        Some((c - 0x41 + 10) as u8)
    } else if 0x61 <= c <= 0x66 {
        Some((c - 0x61 + 10) as u8)
    } else {
        None
    }
}

/// Text of even length made only of hex digits.
pub open spec fn hex_well_formed(s: Seq<u8>) -> bool {
    &&& s.len() % 2 == 0
    &&& forall|i: int| 0 <= i < s.len() ==> (#[trigger] hex_digit_value(s[i])) is Some
}

/// The bytes that well-formed hex text spells, two digits each, high digit first.
pub open spec fn hex_bytes(s: Seq<u8>) -> Seq<u8> {
    Seq::new(
        s.len() / 2,
        |i: int| (hex_digit_value(s[2 * i])->0 * 16 + hex_digit_value(s[2 * i + 1])->0) as u8,
    )
}

/// Relies on `hex::decode`: it fails on odd length or on a byte that is no hex
/// digit, and otherwise turns each pair of digits into one byte.
#[verifier::external_body]
pub(crate) fn decode_hex(data: &[u8]) -> (r: Result<Vec<u8>, hex::FromHexError>)
    ensures
        r is Ok <==> hex_well_formed(data@),
        r matches Ok(v) ==> v@ == hex_bytes(data@),
{
    hex::decode(data)
}

} // verus!
