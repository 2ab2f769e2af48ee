//! Hexadecimal text of byte strings.
use substreams::Hex;
use vstd::prelude::*;

verus! {

/// Lowercase hexadecimal digit of a nibble `n < 16`.
pub open spec fn hex_digit(n: nat) -> char {
    if n < 10 {
        ((n + 48) as u32) as char
    } else {
        ((n + 87) as u32) as char
    }
}

/// Lowercase hexadecimal text of bytes: two digits per byte, high nibble first.
pub open spec fn hex_text(s: Seq<u8>) -> Seq<char>
    decreases s.len(),
{
    if s.len() == 0 {
        Seq::empty()
    } else {
        hex_text(s.drop_last()) + seq![hex_digit(s.last() as nat / 16), hex_digit(s.last() as nat % 16)]
    }
}

/// Value of an ASCII hexadecimal digit of either case.
pub open spec fn hex_value(b: u8) -> Option<u8> {
    if 48 <= b <= 57 {
        Some((b - 48) as u8)
    } else if 65 <= b <= 70 {
        Some((b - 55) as u8)
    } else if 97 <= b <= 102 {
        Some((b - 87) as u8)
    } else {
        None
    }
}

/// Whether `s` is an even number of hexadecimal digits.
pub open spec fn is_hex_text(s: Seq<u8>) -> bool {
    &&& s.len() % 2 == 0
    &&& forall|i: int| 0 <= i < s.len() ==> (#[trigger] hex_value(s[i])) is Some
}

/// Bytes written by hexadecimal text `s` (meaningful where `is_hex_text(s)`).
pub open spec fn hex_bytes(s: Seq<u8>) -> Seq<u8> {
    Seq::new(
        s.len() / 2,
        |i: int| (hex_value(s[2 * i])->0 * 16 + hex_value(s[2 * i + 1])->0) as u8,
    )
}

/// Calls `substreams::Hex::encode`: the lowercase hexadecimal text of `bytes`.
#[verifier::external_body]
pub(crate) fn encode(bytes: &[u8]) -> (r: String)
    ensures
        r@ == hex_text(bytes@),
{
    Hex::encode(bytes)
}

/// The error of `hex::decode`.
#[verifier::external_type_specification]
#[verifier::external_body]
pub struct ExFromHexError(hex::FromHexError);

/// Calls `hex::decode` on raw text bytes: it succeeds exactly on an even number of
/// hexadecimal digits (either case) and then gives one byte per pair of digits.
#[verifier::external_body]
pub(crate) fn decode(text: &[u8]) -> (r: Result<Vec<u8>, hex::FromHexError>)
    ensures
        r is Ok <==> is_hex_text(text@),
        r matches Ok(v) ==> v@ == hex_bytes(text@),
{
    hex::decode(text)
}

/// `s` without a leading `0x`.
pub open spec fn strip_hex_prefix(s: Seq<u8>) -> Seq<u8> {
    if s.len() >= 2 && s[0] == 48 && s[1] == 120 {
        s.subrange(2, s.len() as int)
    } else {
        s
    }
}

/// Whether `substreams::Hex::decode` can read the text: it reads the first byte, and the
/// second one when the first is `0`.
pub open spec fn prefix_readable(s: Seq<u8>) -> bool {
    s.len() >= 1 && (s[0] == 48 ==> s.len() >= 2)
}

/// Calls `substreams::Hex::decode`, which drops a leading `0x` (reading the first byte,
/// and the second when the first is `0`) and then decodes as `hex::decode` does.
#[verifier::external_body]
pub(crate) fn decode_prefixed(text: &[u8]) -> (r: Result<Vec<u8>, hex::FromHexError>)
    requires
        prefix_readable(text@),
    ensures
        r is Ok <==> is_hex_text(strip_hex_prefix(text@)),
        r matches Ok(v) ==> v@ == hex_bytes(strip_hex_prefix(text@)),
{
    Hex::decode(text)
}

} // verus!
