//! Hash primitives used for derivation and address checksums.

use vstd::prelude::*;

verus! {

/// The BLAKE2b digest of `data` with an output of `out_len` bytes and no key.
pub uninterp spec fn blake2b_digest(out_len: nat, data: Seq<u8>) -> Seq<u8>;

/// Calls `blake2_rfc::blake2b::blake2b` with an empty key.
///
/// Trusted: the bytes returned are the unkeyed BLAKE2b digest of `data`, and
/// there are exactly `out_len` of them. The outside function asserts
/// `1 <= out_len <= 64`, which the precondition carries.
#[verifier::external_body]
pub(crate) fn blake2b(out_len: usize, data: &[u8]) -> (digest: Vec<u8>)
    requires
        1 <= out_len <= 64,
    ensures
        digest@ == blake2b_digest(out_len as nat, data@),
        digest@.len() == out_len,
{
    blake2_rfc::blake2b::blake2b(out_len, &[], data).as_bytes().to_vec()
}

/// The 32-byte BLAKE2b digest of `data`.
pub open spec fn spec_blake2_256(data: Seq<u8>) -> Seq<u8> {
    blake2b_digest(32, data)
}

/// Hashes `data` to 32 bytes with BLAKE2b.
pub fn blake2_256(data: &[u8]) -> (digest: [u8; 32])
    ensures
        digest@ == spec_blake2_256(data@),
{
    let v = blake2b(32, data);
    let mut out = [0u8; 32];
    let mut i: usize = 0;
    while i < 32
        invariant
            i <= 32,
            v@.len() == 32,
            forall|j: int| 0 <= j < i ==> out@[j] == v@[j],
        decreases 32 - i,
    {
        out[i] = v[i];
        i += 1;
    }
    assert(out@ =~= v@);
    out
}

} // verus!
