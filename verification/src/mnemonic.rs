//! Mnemonic phrases as the outside crates read them: from a phrase to its
//! entropy, and from the entropy and a password to seed material.

use vstd::prelude::*;

verus! {

/// The entropy that a mnemonic phrase of the English word list stands for,
/// where the phrase is valid.
pub uninterp spec fn mnemonic_entropy(phrase: Seq<char>) -> Option<Seq<u8>>;

/// The 64-byte seed that is stretched from `entropy` and `password`, where
/// the entropy has an accepted length.
pub uninterp spec fn entropy_seed(entropy: Seq<u8>, password: Seq<char>) -> Option<Seq<u8>>;

/// Calls `bip39::Mnemonic::from_phrase` with the English word list, and
/// `Mnemonic::entropy`.
///
/// Trusted: the bytes returned are the entropy of the phrase, and there are
/// none where the outside function reports an error.
#[verifier::external_body]
pub(crate) fn phrase_entropy(phrase: &str) -> (entropy: Option<Vec<u8>>)
    ensures
        match entropy {
            Some(e) => mnemonic_entropy(phrase@) == Some(e@),
            None => mnemonic_entropy(phrase@) is None,
        },
{
    let mnemonic = bip39::Mnemonic::from_phrase(phrase, bip39::Language::English).ok()?;
    Some(mnemonic.entropy().to_vec())
}

/// Calls `substrate_bip39::seed_from_entropy`.
///
/// Trusted: the bytes returned are the seed stretched from `entropy` and
/// `password`, and there are none where the outside function reports an
/// error.
#[verifier::external_body]
pub(crate) fn stretch_entropy(entropy: &[u8], password: &str) -> (seed: Option<[u8; 64]>)
    ensures
        match seed {
            Some(s) => entropy_seed(entropy@, password@) == Some(s@),
            None => entropy_seed(entropy@, password@) is None,
        },
{
    substrate_bip39::seed_from_entropy(entropy, password).ok()
}

/// Calls `bip39::Mnemonic::new` for twelve English words, and
/// `Mnemonic::phrase`.
///
/// The outside function draws random entropy, so nothing is claimed of the
/// phrase.
#[verifier::external_body]
pub(crate) fn random_phrase() -> (phrase: String) {
    let mnemonic = bip39::Mnemonic::new(bip39::MnemonicType::Words12, bip39::Language::English);
    mnemonic.phrase().to_owned()
}

} // verus!
