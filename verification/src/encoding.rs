//! Text encodings of byte strings: lowercase hexadecimal, base-58 and UTF-8.

use vstd::prelude::*;
use vstd::string::StringSliceAdditionalSpecFns;
use vstd::utf8::valid_utf8;

verus! {

/// The lowercase hexadecimal digit for a value below 16.
pub open spec fn hex_digit(nibble: int) -> char {
    if nibble < 10 {
        (('0' as u8) + nibble) as u8 as char
    } else {
        (('a' as u8) + nibble - 10) as u8 as char
    }
}

/// The lowercase hexadecimal rendering of `bytes`: two digits per byte, the
/// high half first.
pub open spec fn hex_text(bytes: Seq<u8>) -> Seq<char> {
    Seq::new(
        2 * bytes.len(),
        |i: int|
            if i % 2 == 0 {
                hex_digit(bytes[i / 2] as int / 16)
            } else {
                hex_digit(bytes[i / 2] as int % 16)
            },
    )
}

/// The value of an ASCII hexadecimal digit of either case, if `c` is one.
pub open spec fn hex_value(c: u8) -> Option<int> {
    if 0x30 <= c <= 0x39 {
        Some(c - 0x30)
    } else if 0x41 <= c <= 0x46 {
        Some(c - 0x41 + 10)
    } else if 0x61 <= c <= 0x66 {
        Some(c - 0x61 + 10)
    } else {
        None
    }
}

/// Whether `text` is an even number of hexadecimal digits.
pub open spec fn is_hex(text: Seq<u8>) -> bool {
    &&& text.len() % 2 == 0
    &&& forall|i: int| 0 <= i < text.len() ==> hex_value(#[trigger] text[i]) is Some
}

/// The bytes that the hexadecimal digits of `text` spell.
pub open spec fn hex_bytes(text: Seq<u8>) -> Seq<u8> {
    Seq::new(
        text.len() / 2,
        |i: int| (hex_value(text[2 * i])->0 * 16 + hex_value(text[2 * i + 1])->0) as u8,
    )
}

/// Calls `hex::encode`.
///
/// Trusted: the string returned holds two lowercase hexadecimal digits for
/// each byte of `bytes`, in order.
#[verifier::external_body]
pub(crate) fn hex_encode(bytes: &[u8]) -> (text: String)
    ensures
        text@ == hex_text(bytes@),
{
    hex::encode(bytes)
}

/// Calls `hex::decode`.
///
/// Trusted: the call succeeds exactly on an even number of hexadecimal digits
/// of either case, and then returns the bytes they spell.
#[verifier::external_body]
pub(crate) fn hex_decode(text: &[u8]) -> (bytes: Option<Vec<u8>>)
    ensures
        bytes is Some <==> is_hex(text@),
        bytes matches Some(b) ==> b@ == hex_bytes(text@),
{
    hex::decode(text).ok()
}

/// Calls `std::str::from_utf8`.
///
/// Trusted: the text returned has the bytes of `bytes`, and there is none
/// exactly where `bytes` are not UTF-8.
#[verifier::external_body]
pub(crate) fn utf8_text(bytes: &[u8]) -> (text: Option<&str>)
    ensures
        text is Some <==> valid_utf8(bytes@),
        text matches Some(t) ==> t.spec_bytes() == bytes@,
{
    std::str::from_utf8(bytes).ok()
}

/// Whether `c` belongs to the base-58 alphabet: the digits and letters without
/// `0`, `O`, `I` and `l`.
pub open spec fn is_base58_char(c: char) -> bool {
    ||| '1' <= c <= '9'
    ||| 'A' <= c <= 'H'
    ||| 'J' <= c <= 'N'
    ||| 'P' <= c <= 'Z'
    ||| 'a' <= c <= 'k'
    ||| 'm' <= c <= 'z'
}

/// Whether every character of `text` belongs to the base-58 alphabet.
pub open spec fn is_base58_text(text: Seq<char>) -> bool {
    forall|i: int| 0 <= i < text.len() ==> is_base58_char(#[trigger] text[i])
}

/// The longest byte string that the base-58 encoder is documented to handle.
pub const BASE58_MAX_BYTES: usize = 128;

/// The longest text that the base-58 decoder takes.
pub const BASE58_MAX_TEXT: usize = 132;

/// The base-58 text of `bytes`.
pub uninterp spec fn base58_text(bytes: Seq<u8>) -> Seq<char>;

/// The bytes that a base-58 `text` decodes to, if it decodes.
pub uninterp spec fn base58_bytes(text: Seq<char>) -> Option<Seq<u8>>;

/// Calls `base58::ToBase58::to_base58`.
///
/// Trusted: the string returned is the base-58 text of `bytes`; it holds only
/// characters of the alphabet, at most one for each leading zero byte and
/// `138 / 100` of the rest plus one; and the decoder gives `bytes` back for
/// it. The outside crate documents that it works up to 128 bytes, which the
/// precondition carries.
#[verifier::external_body]
pub(crate) fn base58_encode(bytes: &[u8]) -> (text: String)
    requires
        bytes@.len() <= BASE58_MAX_BYTES,
    ensures
        text@ == base58_text(bytes@),
        is_base58_text(text@),
        text@.len() <= bytes@.len() + bytes@.len() * 138 / 100 + 1,
        base58_bytes(text@) == Some(bytes@),
{
    base58::ToBase58::to_base58(bytes)
}

/// Calls `base58::FromBase58::from_base58`.
///
/// Trusted: the bytes returned are what `text` decodes to, and there are none
/// where the outside function reports an error. The outside function
/// subtracts the number of leading `1`s from the number of leading zero bytes
/// of a 132-byte buffer, which is in range for a text of at most 132 bytes:
/// the precondition carries that.
#[verifier::external_body]
pub(crate) fn base58_decode(text: &str) -> (bytes: Option<Vec<u8>>)
    requires
        text.spec_bytes().len() <= BASE58_MAX_TEXT,
    ensures
        match bytes {
            Some(b) => base58_bytes(text@) == Some(b@),
            None => base58_bytes(text@) is None,
        },
{
    base58::FromBase58::from_base58(text).ok()
}

} // verus!
