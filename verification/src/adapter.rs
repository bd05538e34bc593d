//! What every signature scheme offers to the scheme-agnostic parts.

use vstd::prelude::*;
use crate::error::SecretStringError;
use crate::scale::MAX_PREFIXED_LEN;

verus! {

/// A key pair of one signature scheme, with the operations of the scheme.
///
/// A pair is known in contracts by its secret bytes and its public bytes. A
/// well-formed pair holds the public key of its secret.
pub trait SchemeAdapter: Sized {
    /// The secret bytes of the pair.
    spec fn spec_secret(&self) -> Seq<u8>;

    /// The public bytes of the pair.
    spec fn spec_public(&self) -> Seq<u8>;

    /// Whether the pair holds the public key of its secret.
    spec fn wf(&self) -> bool;

    /// The number of bytes in a seed.
    spec fn spec_seed_len() -> nat;

    /// The number of bytes in a public key.
    spec fn spec_public_len() -> nat;

    /// The number of bytes in a signature.
    spec fn spec_signature_len() -> nat;

    /// Whether the scheme derives soft keys.
    spec fn spec_supports_soft() -> bool;

    /// The tag that sets the scheme's hard derivation apart from the others'.
    spec fn spec_domain_tag() -> Seq<u8>;

    /// The public key of a secret, where the scheme accepts the secret.
    spec fn public_of(secret: Seq<u8>) -> Option<Seq<u8>>;

    /// The secret of the soft child of `secret` under `chain_code`, where the
    /// scheme has one.
    spec fn soft_child(secret: Seq<u8>, chain_code: Seq<u8>) -> Option<Seq<u8>>;

    /// The secret of the pair that a mnemonic phrase and a password stand for,
    /// or why there is none.
    spec fn phrase_secret(phrase: Seq<u8>, password: Seq<u8>) -> Result<
        Seq<u8>,
        SecretStringError,
    >;

    /// Whether `signature` is one of `message` under `public`.
    spec fn verifies(signature: Seq<u8>, message: Seq<u8>, public: Seq<u8>) -> bool;

    /// A well-formed pair holds the public key of its secret.
    proof fn lemma_public_of_secret(&self)
        requires
            self.wf(),
        ensures
            Self::public_of(self.spec_secret()) == Some(self.spec_public()),
    ;

    /// The number of bytes in a seed; a digest can have this length.
    fn seed_len() -> (len: usize)
        ensures
            len == Self::spec_seed_len(),
            1 <= len <= 64,
    ;

    /// The number of bytes in a public key.
    fn public_len() -> (len: usize)
        ensures
            len == Self::spec_public_len(),
    ;

    /// The number of bytes in a signature.
    fn signature_len() -> (len: usize)
        ensures
            len == Self::spec_signature_len(),
    ;

    /// Whether the scheme derives soft keys.
    fn supports_soft_derivation() -> (soft: bool)
        ensures
            soft == Self::spec_supports_soft(),
    ;

    /// The tag that sets the scheme's hard derivation apart from the others'.
    fn domain_tag() -> (tag: Vec<u8>)
        ensures
            tag@ == Self::spec_domain_tag(),
            tag@.len() <= MAX_PREFIXED_LEN,
    ;

    /// The pair of a seed. A seed of another length than the scheme's, or one
    /// that the scheme does not accept, is refused as `InvalidSeedLength`.
    fn from_seed_slice(seed: &[u8]) -> (out: Result<Self, SecretStringError>)
        ensures
            seed@.len() != Self::spec_seed_len() ==> out is Err,
            match out {
                Ok(pair) => pair.wf() && pair.spec_secret() == seed@ && Self::public_of(seed@)
                    == Some(pair.spec_public()),
                Err(e) => e == SecretStringError::InvalidSeedLength && Self::public_of(seed@)
                    is None,
            },
    ;

    /// The pair that a mnemonic phrase and a password stand for.
    fn from_phrase_bytes(phrase: &[u8], password: &[u8]) -> (out: Result<Self, SecretStringError>)
        ensures
            match out {
                Ok(pair) => pair.wf() && Self::phrase_secret(phrase@, password@) == Ok::<
                    Seq<u8>,
                    SecretStringError,
                >(pair.spec_secret()),
                Err(e) => Self::phrase_secret(phrase@, password@) == Err::<
                    Seq<u8>,
                    SecretStringError,
                >(e),
            },
    ;

    /// The soft child of the pair under `chain_code`; none where the scheme
    /// derives no soft keys.
    fn derive_soft(&self, chain_code: &[u8; 32]) -> (out: Option<Self>)
        requires
            self.wf(),
        ensures
            !Self::spec_supports_soft() ==> out is None,
            match out {
                Some(child) => child.wf() && Self::soft_child(self.spec_secret(), chain_code@)
                    == Some(child.spec_secret()),
                None => Self::soft_child(self.spec_secret(), chain_code@) is None,
            },
    ;

    /// A second pair with the same secret and public bytes.
    fn duplicate(&self) -> (copy: Self)
        ensures
            copy.spec_secret() == self.spec_secret(),
            copy.spec_public() == self.spec_public(),
            copy.wf() == self.wf(),
    ;

    /// The secret bytes of the pair.
    fn secret_bytes(&self) -> (secret: Vec<u8>)
        ensures
            secret@ == self.spec_secret(),
    ;

    /// The public bytes of the pair; there are as many as the scheme's public
    /// keys have.
    fn public_bytes(&self) -> (public: Vec<u8>)
        ensures
            public@ == self.spec_public(),
            public@.len() == Self::spec_public_len(),
    ;

    /// Signs `message`. A signature that is returned has the length of the
    /// scheme's signatures and verifies under the pair's public key.
    fn sign_bytes(&self, message: &[u8]) -> (out: Option<Vec<u8>>)
        requires
            self.wf(),
        ensures
            out matches Some(signature) ==> signature@.len() == Self::spec_signature_len(),
            out matches Some(signature) ==> Self::verifies(
                signature@,
                message@,
                self.spec_public(),
            ),
    ;

    /// Whether `signature` is one of `message` under `public`. Bytes of a
    /// wrong length verify nothing.
    fn verify_bytes(signature: &[u8], message: &[u8], public: &[u8]) -> (ok: bool)
        ensures
            ok == Self::verifies(signature@, message@, public@),
            ok ==> signature@.len() == Self::spec_signature_len() && public@.len()
                == Self::spec_public_len(),
    ;
}

} // verus!
