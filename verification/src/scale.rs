//! The length-prefixed byte encoding that derivation hashes are taken over.

use vstd::prelude::*;

verus! {

/// The `count` low bytes of `value`, lowest first.
pub open spec fn le_bytes(value: nat, count: nat) -> Seq<u8>
    decreases count,
{
    if count == 0 {
        Seq::empty()
    } else {
        seq![(value % 256) as u8] + le_bytes(value / 256, (count - 1) as nat)
    }
}

/// The compact encoding of a length below 2^32: one, two or four bytes whose
/// two low bits tell the width, or a marker byte and four bytes.
pub open spec fn compact_len(len: nat) -> Seq<u8> {
    if len < 0x40 {
        le_bytes(len * 4, 1)
    } else if len < 0x4000 {
        le_bytes(len * 4 + 1, 2)
    } else if len < 0x4000_0000 {
        le_bytes(len * 4 + 2, 4)
    } else {
        seq![3u8] + le_bytes(len, 4)
    }
}

/// `data` behind the compact encoding of its length.
pub open spec fn prefixed(data: Seq<u8>) -> Seq<u8> {
    compact_len(data.len()) + data
}

/// The longest byte string that can be length-prefixed.
pub const MAX_PREFIXED_LEN: usize = 0xffff_ffff;

/// Calls `parity_scale_codec::Encode::encode` on a byte slice.
///
/// Trusted: the bytes returned are the compact encoding of the slice's length
/// followed by the slice. The outside function panics on a length above
/// `u32::MAX`, which the precondition leaves out.
#[verifier::external_body]
pub(crate) fn encode_prefixed(data: &[u8]) -> (out: Vec<u8>)
    requires
        data@.len() <= MAX_PREFIXED_LEN,
    ensures
        out@ == prefixed(data@),
{
    parity_scale_codec::Encode::encode(data)
}

/// The eight bytes of `value`, lowest first.
pub fn u64_le_bytes(value: u64) -> (out: [u8; 8])
    ensures
        out@ == le_bytes(value as nat, 8),
{
    let mut out = [0u8; 8];
    let mut rest: u64 = value;
    let mut i: usize = 0;
    while i < 8
        invariant
            i <= 8,
            out@.len() == 8,
            out@.subrange(0, i as int) + le_bytes(rest as nat, (8 - i) as nat) == le_bytes(
                value as nat,
                8,
            ),
        decreases 8 - i,
    {
        let ghost before = out@.subrange(0, i as int);
        out[i] = (rest % 256) as u8;
        rest = rest / 256;
        i += 1;
        assert(out@.subrange(0, i as int) =~= before + seq![out@[i - 1]]);
        assert(before + seq![out@[i - 1]] + le_bytes(rest as nat, (8 - i) as nat) =~= before + (
        seq![out@[i - 1]] + le_bytes(rest as nat, (8 - i) as nat)));
    }
    assert(out@.subrange(0, 8) =~= out@);
    assert(le_bytes(rest as nat, 0) =~= Seq::<u8>::empty());
    out
}

} // verus!
