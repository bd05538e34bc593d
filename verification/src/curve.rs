//! The SM2 curve as the outside crate computes it: public keys from secret
//! numbers, signatures and their verification.

use vstd::prelude::*;

verus! {

/// The number of bytes in a secret number.
pub const SECRET_LEN: usize = 32;

/// The compressed public key of a seed, where the curve accepts the seed as a
/// secret number.
pub uninterp spec fn sm2_public_of_seed(seed: Seq<u8>) -> Option<Seq<u8>>;

/// Whether the two numbers in `rs` sign `message` under the compressed public
/// key `public`.
pub uninterp spec fn sm2_signature_valid(rs: Seq<u8>, message: Seq<u8>, public: Seq<u8>) -> bool;

/// The compressed form of the public key `full`, where `full` is a point of
/// the curve in compressed or uncompressed form.
pub uninterp spec fn sm2_compressed(full: Seq<u8>) -> Option<Seq<u8>>;

/// Calls `SigCtx::load_seckey` and `SigCtx::serialize_pubkey` of
/// `libsm::sm2::signature`, and between them `EccCtx::generator` and
/// `EccCtx::mul` of `libsm::sm2::ecc`, which multiply the base point without
/// the table that `SigCtx::pk_from_sk` builds first.
///
/// Trusted: the bytes returned are the compressed public key of the secret
/// number that `seed` writes, and there are none where one of the calls
/// reports an error. `load_seckey` reports one for every length but 32. The
/// compressed form starts with the byte 2 or 3, which tells the sign.
#[verifier::external_body]
pub(crate) fn sm2_public_key(seed: &[u8]) -> (public: Option<[u8; 33]>)
    ensures
        match public {
            Some(p) => sm2_public_of_seed(seed@) == Some(p@),
            None => sm2_public_of_seed(seed@) is None,
        },
        public is Some ==> seed@.len() == SECRET_LEN,
        public matches Some(p) ==> p@[0] == 2 || p@[0] == 3,
{
    let ctx = libsm::sm2::signature::SigCtx::new();
    let curve = libsm::sm2::ecc::EccCtx::new();
    let sk = ctx.load_seckey(seed).ok()?;
    let pk = curve.mul(&sk, &curve.generator().ok()?).ok()?;
    ctx.serialize_pubkey(&pk, true).ok()?.try_into().ok()
}

/// Calls `SigCtx::sign` of `libsm::sm2::signature` and hands out the two
/// numbers of the signature as big-endian bytes without leading zeros.
///
/// The outside function draws a random number, so nothing is claimed of what
/// comes back.
#[verifier::external_body]
pub(crate) fn sm2_sign(message: &[u8], seed: &[u8; 32], public: &[u8; 33]) -> (out: Option<(Vec<u8>, Vec<u8>)>)
{
    let ctx = libsm::sm2::signature::SigCtx::new();
    let sk = ctx.load_seckey(seed).ok()?;
    let pk = ctx.load_pubkey(public).ok()?;
    let signature = ctx.sign(message, &sk, &pk).ok()?;
    Some((signature.get_r().to_bytes_be(), signature.get_s().to_bytes_be()))
}

/// Calls `Signature::new`, `SigCtx::load_pubkey` and `SigCtx::verify` of
/// `libsm::sm2::signature`.
///
/// Trusted: the answer is whether the two 32-byte numbers in `rs` sign
/// `message` under `public`; it is `false` where a call reports an error.
#[verifier::external_body]
pub(crate) fn sm2_verify(rs: &[u8; 64], message: &[u8], public: &[u8; 33]) -> (ok: bool)
    ensures
        ok == sm2_signature_valid(rs@, message@, public@),
{
    let ctx = libsm::sm2::signature::SigCtx::new();
    let signature = libsm::sm2::signature::Signature::new(&rs[..32], &rs[32..]);
    match ctx.load_pubkey(public) {
        Ok(pk) => ctx.verify(message, &pk, &signature).unwrap_or(false),
        Err(_) => false,
    }
}

/// Calls `SigCtx::load_pubkey` and `SigCtx::serialize_pubkey` of
/// `libsm::sm2::signature`.
///
/// Trusted: the bytes returned are the compressed form of the point that
/// `full` writes, and there are none where a call reports an error. The
/// compressed form starts with the byte 2 or 3, which tells the sign.
#[verifier::external_body]
pub(crate) fn sm2_compress(full: &[u8]) -> (public: Option<[u8; 33]>)
    ensures
        match public {
            Some(p) => sm2_compressed(full@) == Some(p@),
            None => sm2_compressed(full@) is None,
        },
        public matches Some(p) ==> p@[0] == 2 || p@[0] == 3,
{
    let ctx = libsm::sm2::signature::SigCtx::new();
    let pk = ctx.load_pubkey(full).ok()?;
    ctx.serialize_pubkey(&pk, true).ok()?.try_into().ok()
}

} // verus!
