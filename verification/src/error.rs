//! The errors of key creation and derivation.

use vstd::prelude::*;

verus! {

/// Why a secret string gave no key pair.
#[derive(Clone, Copy, PartialEq, Eq, Debug, Structural)]
pub enum SecretStringError {
    /// The slashes of the text do not group into a path.
    InvalidFormat,
    /// The phrase is no mnemonic: a word is unknown, the count is wrong or the
    /// checksum fails.
    InvalidPhrase,
    /// The password was not accepted.
    InvalidPassword,
    /// The seed material was not accepted.
    InvalidSeed,
    /// The seed has not the byte count of the scheme, or is no secret of it.
    InvalidSeedLength,
    /// The path cannot be walked under the scheme.
    InvalidPath,
}

/// Why a path gave no derived key pair.
#[derive(Clone, Copy, PartialEq, Eq, Debug, Structural)]
pub enum DeriveError {
    /// The path holds a soft junction and the scheme derives no soft keys.
    SoftKeyInPath,
    /// The seed that the path leads to is no secret of the scheme.
    InvalidSeed,
}

} // verus!
