//! Scheme-agnostic key derivation, signing and checksummed address text.

pub mod adapter;
pub mod bytes;
pub mod ca_exchange;
pub mod curve;
pub mod derivation;
pub mod dispatch;
pub mod encoding;
pub mod error;
pub mod event;
pub mod hashing;
pub mod junction;
pub mod mnemonic;
pub mod scale;
pub mod secret;
pub mod sign_cmd;
pub mod sm2;
pub mod ss58;
pub mod suri;
