//! Checksummed, network-tagged address text.
//!
//! An address is the base-58 text of a frame: one version byte, the public
//! key, and the first bytes of a BLAKE2b-512 digest taken over a fixed prefix,
//! the version and the key.

use vstd::prelude::*;
use vstd::utf8::is_ascii_chars;
use vstd::utf8::is_ascii_chars_encode_utf8;
use crate::bytes::append;
use crate::bytes::copy_range;
use crate::bytes::equal;
use crate::encoding::base58_bytes;
use crate::encoding::base58_decode;
use crate::encoding::base58_encode;
use crate::encoding::base58_text;
use crate::encoding::is_base58_char;
use crate::encoding::is_base58_text;
use crate::encoding::BASE58_MAX_TEXT;
use crate::hashing::blake2b;
use crate::hashing::blake2b_digest;

verus! {

/// Why an address text was not accepted.
#[derive(Clone, Copy, PartialEq, Eq, Debug, Structural)]
pub enum PublicError {
    /// The text is not base-58.
    BadBase58,
    /// The decoded bytes have the length of no registered kind of key.
    BadLength,
    /// The version byte names no registered network.
    UnknownVersion,
    /// The trailing bytes are not the checksum of the rest.
    InvalidChecksum,
}

/// The version under which addresses are written when none is asked for.
pub const DEFAULT_VERSION: u8 = 42;

/// The bytes hashed before the frame when its checksum is computed.
pub open spec fn checksum_prefix() -> Seq<u8> {
    seq![0x53u8, 0x53u8, 0x35u8, 0x38u8, 0x50u8, 0x52u8, 0x45u8]
}

/// Whether `version` names a registered network.
pub open spec fn is_registered_version(version: u8) -> bool {
    ||| version == 0
    ||| version == 2
    ||| version == 5
    ||| version == 6
    ||| version == 7
    ||| version == 8
    ||| version == 10
    ||| version == 16
    ||| version == 18
    ||| version == 20
    ||| version == 32
    ||| version == 36
    ||| version == 42
}

/// The size classes of keys: the number of checksum bytes that follows a
/// key of `key_len` bytes, where keys of that length are registered. The
/// 32-byte keys that the format was made for take two, and so do 33-byte
/// compressed curve points; keys of no other length are registered.
pub open spec fn spec_checksum_len(key_len: nat) -> Option<nat> {
    if key_len == 32 {
        Some(2)
    } else if key_len == 33 {
        Some(2)
    } else {
        None
    }
}

/// Whether keys of `len` bytes are registered: whether they have a size
/// class.
pub open spec fn is_registered_key_len(len: nat) -> bool {
    spec_checksum_len(len) is Some
}

/// The number of bytes in the frame of a key of the registered length
/// `key_len`: the version byte, the key and the checksum of its class.
pub open spec fn frame_len(key_len: nat) -> nat {
    1 + key_len + spec_checksum_len(key_len)->0
}

/// The registered length of the key in a frame of `len` bytes, where there is
/// one.
pub open spec fn spec_key_len_of_frame(len: nat) -> Option<nat> {
    if len == frame_len(32) {
        Some(32)
    } else if len == frame_len(33) {
        Some(33)
    } else {
        None
    }
}

/// The checksum of a key of a registered length under `version`: the first
/// bytes of the 64-byte digest of the prefix, the version and the key, as
/// many as the key's size class takes.
pub open spec fn checksum_of(version: u8, key: Seq<u8>) -> Seq<u8> {
    blake2b_digest(64, checksum_prefix() + seq![version] + key).subrange(
        0,
        spec_checksum_len(key.len())->0 as int,
    )
}

/// The frame of `key` under `version`.
pub open spec fn frame_of(version: u8, key: Seq<u8>) -> Seq<u8> {
    seq![version] + key + checksum_of(version, key)
}

/// The address text of `key` under `version`, or why there is none.
pub open spec fn spec_encode(version: u8, key: Seq<u8>) -> Result<Seq<char>, PublicError> {
    if !is_registered_key_len(key.len()) {
        Err(PublicError::BadLength)
    } else if !is_registered_version(version) {
        Err(PublicError::UnknownVersion)
    } else {
        Ok(base58_text(frame_of(version, key)))
    }
}

/// Whether `frame` has the length of a registered kind of key and its last
/// bytes are the checksum of its first byte, the version, and the bytes
/// between, the key.
pub open spec fn carries_own_checksum(frame: Seq<u8>) -> bool {
    match spec_key_len_of_frame(frame.len()) {
        Some(key_len) => frame.subrange(1 + key_len as int, frame.len() as int) == checksum_of(
            frame[0],
            frame.subrange(1, 1 + key_len as int),
        ),
        None => false,
    }
}

/// What a decoded frame holds: the version and the key, or why it is refused.
/// The length is judged first, then the checksum, then the version: a frame
/// that was tampered with is never reported as one of an unknown network.
pub open spec fn spec_decode_frame(frame: Seq<u8>) -> Result<(u8, Seq<u8>), PublicError> {
    match spec_key_len_of_frame(frame.len()) {
        None => Err(PublicError::BadLength),
        Some(key_len) => if !carries_own_checksum(frame) {
            Err(PublicError::InvalidChecksum)
        } else if !is_registered_version(frame[0]) {
            Err(PublicError::UnknownVersion)
        } else {
            Ok((frame[0], frame.subrange(1, 1 + key_len as int)))
        },
    }
}

/// What an address text holds, or why it is refused. A character outside the
/// alphabet makes it `BadBase58`; a text longer than any frame's makes it
/// `BadLength`.
pub open spec fn spec_decode(text: Seq<char>) -> Result<(u8, Seq<u8>), PublicError> {
    if !is_base58_text(text) {
        Err(PublicError::BadBase58)
    } else if text.len() > BASE58_MAX_TEXT {
        Err(PublicError::BadLength)
    } else {
        match base58_bytes(text) {
            None => Err(PublicError::BadBase58),
            Some(frame) => spec_decode_frame(frame),
        }
    }
}

/// Whether `version` names a registered network.
pub fn version_is_registered(version: u8) -> (known: bool)
    ensures
        known == is_registered_version(version),
{
    version == 0 || version == 2 || version == 5 || version == 6 || version == 7 || version == 8
        || version == 10 || version == 16 || version == 18 || version == 20 || version == 32
        || version == 36 || version == 42
}

/// The number of checksum bytes that follows a key of `key_len` bytes, where
/// keys of that length are registered.
pub fn checksum_len(key_len: usize) -> (len: Option<usize>)
    ensures
        match len {
            Some(n) => spec_checksum_len(key_len as nat) == Some(n as nat),
            None => spec_checksum_len(key_len as nat) is None,
        },
{
    if key_len == 32 {
        Some(2)
    } else if key_len == 33 {
        Some(2)
    } else {
        None
    }
}

/// Whether keys of `len` bytes are registered.
pub fn key_len_is_registered(len: usize) -> (known: bool)
    ensures
        known == is_registered_key_len(len as nat),
{
    checksum_len(len).is_some()
}

/// The registered length of the key in a frame of `len` bytes, where there is
/// one.
pub fn key_len_of_frame(len: usize) -> (key_len: Option<usize>)
    ensures
        match key_len {
            Some(k) => spec_key_len_of_frame(len as nat) == Some(k as nat),
            None => spec_key_len_of_frame(len as nat) is None,
        },
{
    if frame_has_key_len(len, 32) {
        Some(32)
    } else if frame_has_key_len(len, 33) {
        Some(33)
    } else {
        None
    }
}

/// Whether a frame of `len` bytes holds a key of the registered length
/// `key_len`.
pub fn frame_has_key_len(len: usize, key_len: usize) -> (fits: bool)
    ensures
        fits == (is_registered_key_len(key_len as nat) && len == frame_len(key_len as nat)),
{
    match checksum_len(key_len) {
        Some(sum_len) => len == 1 + key_len + sum_len,
        None => false,
    }
}

/// The checksum of `key` under `version`; none where keys of that length are
/// not registered.
pub fn checksum(version: u8, key: &[u8]) -> (sum: Option<Vec<u8>>)
    ensures
        match sum {
            Some(bytes) => is_registered_key_len(key@.len()) && bytes@ == checksum_of(
                version,
                key@,
            ) && bytes@.len() == spec_checksum_len(key@.len())->0,
            None => !is_registered_key_len(key@.len()),
        },
{
    let sum_len = match checksum_len(key.len()) {
        Some(n) => n,
        None => {
            return None;
        },
    };
    let mut input: Vec<u8> = Vec::new();
    input.push(0x53);
    input.push(0x53);
    input.push(0x35);
    input.push(0x38);
    input.push(0x50);
    input.push(0x52);
    input.push(0x45);
    assert(input@ =~= checksum_prefix());
    input.push(version);
    assert(input@ =~= checksum_prefix() + seq![version]);
    append(&mut input, key);
    let digest = blake2b(64, input.as_slice());
    Some(copy_range(digest.as_slice(), 0, sum_len))
}

/// Writes `key` as an address text under `version`.
///
/// The key must have a registered length and the version must be registered.
/// Decoding the text gives back `version` and `key`.
pub fn encode(version: u8, key: &[u8]) -> (text: Result<String, PublicError>)
    ensures
        match text {
            Ok(t) => spec_encode(version, key@) == Ok::<Seq<char>, PublicError>(t@),
            Err(e) => spec_encode(version, key@) == Err::<Seq<char>, PublicError>(e),
        },
        text matches Ok(t) ==> spec_decode(t@) == Ok::<(u8, Seq<u8>), PublicError>(
            (version, key@),
        ),
{
    let sum = match checksum(version, key) {
        Some(sum) => sum,
        None => {
            return Err(PublicError::BadLength);
        },
    };
    if !version_is_registered(version) {
        return Err(PublicError::UnknownVersion);
    }
    let mut frame: Vec<u8> = Vec::new();
    frame.push(version);
    append(&mut frame, key);
    append(&mut frame, sum.as_slice());
    let text = base58_encode(frame.as_slice());
    proof {
        let key_len = key@.len();
        assert(frame@ =~= frame_of(version, key@));
        assert(spec_key_len_of_frame(frame@.len()) == Some(key_len));
        assert(frame@.subrange(1 + key_len as int, frame@.len() as int) =~= sum@);
        assert(frame@.subrange(1, 1 + key_len as int) =~= key@);
        assert(text@.len() <= BASE58_MAX_TEXT);
    }
    Ok(text)
}

/// Reads an address text: the version and the key that it holds.
///
/// The text is refused as `BadBase58` where it is not base-58, as `BadLength`
/// where what it decodes to has the length of no registered kind of key, as
/// `InvalidChecksum` where its last bytes are not the checksum of the rest,
/// and as `UnknownVersion` where its first byte names no registered network.
pub fn decode(text: &str) -> (out: Result<(u8, Vec<u8>), PublicError>)
    ensures
        match out {
            Ok((version, key)) => spec_decode(text@) == Ok::<(u8, Seq<u8>), PublicError>(
                (version, key@),
            ),
            Err(e) => spec_decode(text@) == Err::<(u8, Seq<u8>), PublicError>(e),
        },
{
    if !text_is_base58(text) {
        return Err(PublicError::BadBase58);
    }
    proof {
        lemma_base58_is_ascii(text@);
        is_ascii_chars_encode_utf8(text@);
    }
    if text.as_bytes().len() > BASE58_MAX_TEXT {
        return Err(PublicError::BadLength);
    }
    match base58_decode(text) {
        None => Err(PublicError::BadBase58),
        Some(frame) => decode_frame(frame.as_slice()),
    }
}

/// Reads a decoded frame: the version and the key that it holds.
pub fn decode_frame(frame: &[u8]) -> (out: Result<(u8, Vec<u8>), PublicError>)
    ensures
        match out {
            Ok((version, key)) => spec_decode_frame(frame@) == Ok::<(u8, Seq<u8>), PublicError>(
                (version, key@),
            ),
            Err(e) => spec_decode_frame(frame@) == Err::<(u8, Seq<u8>), PublicError>(e),
        },
{
    let len = frame.len();
    let key_len = match key_len_of_frame(len) {
        Some(k) => k,
        None => {
            return Err(PublicError::BadLength);
        },
    };
    let version = frame[0];
    let key = copy_range(frame, 1, 1 + key_len);
    let given = copy_range(frame, 1 + key_len, len);
    let sum = match checksum(version, key.as_slice()) {
        Some(sum) => sum,
        None => {
            return Err(PublicError::BadLength);
        },
    };
    if !equal(given.as_slice(), sum.as_slice()) {
        return Err(PublicError::InvalidChecksum);
    }
    if !version_is_registered(version) {
        return Err(PublicError::UnknownVersion);
    }
    Ok((version, key))
}

/// Whether every character of `text` belongs to the base-58 alphabet.
pub fn text_is_base58(text: &str) -> (all: bool)
    ensures
        all == is_base58_text(text@),
{
    if !text.is_ascii() {
        proof {
            if is_base58_text(text@) {
                lemma_base58_is_ascii(text@);
            }
        }
        return false;
    }
    proof {
        is_ascii_chars_encode_utf8(text@);
    }
    let raw = text.as_bytes();
    let mut i: usize = 0;
    while i < raw.len()
        invariant
            i <= raw@.len(),
            raw@.len() == text@.len(),
            is_ascii_chars(text@),
            forall|j: int| 0 <= j < raw@.len() ==> text@[j] as u8 == #[trigger] raw@[j],
            forall|j: int| 0 <= j < i ==> is_base58_char(#[trigger] text@[j]),
        decreases raw@.len() - i,
    {
        let b = raw[i];
        let inside = (0x31 <= b && b <= 0x39) || (0x41 <= b && b <= 0x48) || (0x4a <= b && b
            <= 0x4e) || (0x50 <= b && b <= 0x5a) || (0x61 <= b && b <= 0x6b) || (0x6d <= b && b
            <= 0x7a);
        proof {
            let c = text@[i as int];
            assert(c as u8 == raw@[i as int]);
            assert('\0' <= c <= '\u{7f}');
            assert(inside == is_base58_char(c));
        }
        if !inside {
            return false;
        }
        i += 1;
    }
    true
}

/// A text of the base-58 alphabet is ASCII.
pub proof fn lemma_base58_is_ascii(text: Seq<char>)
    requires
        is_base58_text(text),
    ensures
        is_ascii_chars(text),
{
    assert forall|i: int| 0 <= i < text.len() implies '\0' <= #[trigger] text[i] <= '\u{7f}' by {
        assert(is_base58_char(text[i]));
    }
}

/// A text whose frame does not carry its own checksum is refused, and the
/// reason is never the version: it is the text, the length or the checksum.
pub proof fn lemma_tampered_frame_is_refused(text: Seq<char>)
    requires
        base58_bytes(text) matches Some(frame) ==> !carries_own_checksum(frame),
    ensures
        spec_decode(text) matches Err(e) && (e == PublicError::BadBase58 || e
            == PublicError::BadLength || e == PublicError::InvalidChecksum),
{
}

/// A text that is accepted is the text of a frame that carries its own
/// checksum, and the key has a registered length.
pub proof fn lemma_accepted_text(text: Seq<char>)
    requires
        spec_decode(text) is Ok,
    ensures
        base58_bytes(text) matches Some(frame) && carries_own_checksum(frame)
            && is_registered_version(frame[0]) && frame == frame_of(
            spec_decode(text)->Ok_0.0,
            spec_decode(text)->Ok_0.1,
        ),
        is_registered_key_len(spec_decode(text)->Ok_0.1.len()),
{
    let frame = base58_bytes(text)->0;
    let version = frame[0];
    let key_len = spec_key_len_of_frame(frame.len())->0;
    let key = frame.subrange(1, 1 + key_len as int);
    assert(frame =~= frame_of(version, key));
}

} // verus!
