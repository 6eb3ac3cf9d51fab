//! PostgreSQL `bytea` values in hex format: `\x` followed by two
//! hexadecimal digits for each byte.

use vstd::prelude::*;
use crate::text::{chars_of, copy_range, string_of};

verus! {

/// Whether `c` is a hexadecimal digit, in either case.
pub open spec fn is_hex_digit(c: char) -> bool {
    ('0' <= c <= '9') || ('a' <= c <= 'f') || ('A' <= c <= 'F')
}

/// The value of a hexadecimal digit, in either case.
pub open spec fn hex_digit_value(c: char) -> nat {
    if '0' <= c <= '9' {
        (c as u32 - '0' as u32) as nat
    } else if 'a' <= c <= 'f' {
        (c as u32 - 'a' as u32 + 10) as nat
    } else if 'A' <= c <= 'F' {
        (c as u32 - 'A' as u32 + 10) as nat
    } else {
        0
    }
}

/// Whether `s` writes whole bytes in hexadecimal: an even number of
/// hexadecimal digits and nothing else.
pub open spec fn is_hex_text(s: Seq<char>) -> bool {
    &&& s.len() % 2 == 0
    &&& forall|i: int| 0 <= i < s.len() ==> is_hex_digit(#[trigger] s[i])
}

/// The bytes that the hexadecimal digits `s` write, two digits to a byte,
/// the high half first.
pub open spec fn hex_bytes(s: Seq<char>) -> Seq<u8> {
    Seq::new(
        s.len() / 2,
        |i: int| (hex_digit_value(s[2 * i]) * 16 + hex_digit_value(s[2 * i + 1])) as u8,
    )
}

/// `hex::FromHexError`, which says why text is not hexadecimal.
#[verifier::external_type_specification]
#[verifier::external_body]
pub struct ExFromHexError(hex::FromHexError);

/// `hex::decode` on the bytes of a string. It succeeds exactly on an even
/// number of hexadecimal digits, of either case, and then gives one byte
/// for each pair of digits, the first digit being the high half.
#[verifier::external_body]
pub(crate) fn hex_decode(s: &str) -> (r: Result<Vec<u8>, hex::FromHexError>)
    ensures
        r is Ok == is_hex_text(s@),
        r matches Ok(bytes) ==> bytes@ == hex_bytes(s@),
{
    hex::decode(s)
}

/// Whether `text` carries the prefix `\x` of the hex format.
pub open spec fn has_hex_prefix(text: Seq<char>) -> bool {
    text.len() >= 2 && text[0] == '\\' && text[1] == 'x'
}

/// The bytes of a `bytea` value in hex format; `None` where `text` lacks
/// the prefix `\x` or what follows it is not hexadecimal.
pub open spec fn spec_decode_bytea_hex(text: Seq<char>) -> Option<Seq<u8>> {
    if has_hex_prefix(text) && is_hex_text(text.skip(2)) {
        Some(hex_bytes(text.skip(2)))
    } else {
        None
    }
}

/// What is known of `text` as a `bytea` value.
pub enum ByteaText {
    /// The value is in hex format and holds these bytes.
    Hex(Vec<u8>),
    /// The value has the prefix `\x`, but what follows is not hexadecimal.
    Malformed,
    /// The value does not have the prefix `\x`.
    Plain,
}

/// Decodes a `bytea` value in hex format.
pub fn decode_bytea_hex(text: &str) -> (r: ByteaText)
    ensures
        match r {
            ByteaText::Hex(bytes) => spec_decode_bytea_hex(text@) == Some(bytes@),
            ByteaText::Malformed => has_hex_prefix(text@) && !is_hex_text(text@.skip(2)),
            ByteaText::Plain => !has_hex_prefix(text@),
        },
{
    let chars = chars_of(text);
    if !(chars.len() >= 2 && chars[0] == '\\' && chars[1] == 'x') {
        return ByteaText::Plain;
    }
    let digits = copy_range(&chars, 2, chars.len());
    assert(digits@ == text@.skip(2));
    let digits_text = string_of(&digits);
    match hex_decode(digits_text.as_str()) {
        Ok(bytes) => ByteaText::Hex(bytes),
        Err(_) => ByteaText::Malformed,
    }
}

} // verus!
