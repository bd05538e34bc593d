//! One surface for every registered scheme: the caller names the scheme and
//! gets bytes and text back.

use vstd::prelude::*;
use vstd::string::StringSliceAdditionalSpecFns;
use vstd::utf8::encode_utf8;
use crate::adapter::SchemeAdapter;
use crate::derivation::path_view;
use crate::derivation::spec_derive;
use crate::encoding::hex_encode;
use crate::encoding::hex_text;
use crate::error::DeriveError;
use crate::error::SecretStringError;
use crate::junction::DeriveJunction;
use crate::junction::JunctionView;
use crate::secret::from_string;
use crate::secret::spec_bytes_of;
use crate::secret::spec_from_string;
use crate::sm2::spec_password;
use crate::sm2::Pair;
use crate::ss58::encode;
use crate::ss58::spec_decode;
use crate::ss58::spec_encode;
use crate::ss58::PublicError;

verus! {

/// The registered signature schemes.
#[derive(Clone, Copy, PartialEq, Eq, Debug, Structural)]
pub enum CryptoScheme {
    /// SM2 signatures over the SM2 curve.
    Sm2,
}

/// Why nothing was signed.
#[derive(Clone, Copy, PartialEq, Eq, Debug, Structural)]
pub enum SignError {
    /// The secret text stands for no pair.
    Secret(SecretStringError),
    /// The scheme gave no signature that verifies.
    NoSignature,
}

/// The number of bytes in a seed of `scheme`.
pub open spec fn spec_seed_len(scheme: CryptoScheme) -> nat {
    match scheme {
        CryptoScheme::Sm2 => Pair::spec_seed_len(),
    }
}

/// The number of bytes in a public key of `scheme`.
pub open spec fn spec_public_len(scheme: CryptoScheme) -> nat {
    match scheme {
        CryptoScheme::Sm2 => Pair::spec_public_len(),
    }
}

/// The number of bytes in a signature of `scheme`.
pub open spec fn spec_signature_len(scheme: CryptoScheme) -> nat {
    match scheme {
        CryptoScheme::Sm2 => Pair::spec_signature_len(),
    }
}

/// Whether `scheme` derives soft keys.
pub open spec fn spec_supports_soft(scheme: CryptoScheme) -> bool {
    match scheme {
        CryptoScheme::Sm2 => Pair::spec_supports_soft(),
    }
}

/// The public key of a secret under `scheme`, where the scheme accepts it.
pub open spec fn spec_public_of(scheme: CryptoScheme, secret: Seq<u8>) -> Option<Seq<u8>> {
    match scheme {
        CryptoScheme::Sm2 => Pair::public_of(secret),
    }
}

/// The secret that a secret text stands for under `scheme`.
pub open spec fn spec_secret_of(
    scheme: CryptoScheme,
    suri: Seq<u8>,
    password: Option<Seq<u8>>,
) -> Result<Seq<u8>, SecretStringError> {
    match scheme {
        CryptoScheme::Sm2 => spec_from_string::<Pair>(suri, password),
    }
}

/// The secret that `path` leads to from `secret` under `scheme`.
pub open spec fn spec_derived(
    scheme: CryptoScheme,
    secret: Seq<u8>,
    path: Seq<JunctionView>,
) -> Result<Seq<u8>, DeriveError> {
    match scheme {
        CryptoScheme::Sm2 => spec_derive::<Pair>(secret, path),
    }
}

/// The secret that a mnemonic phrase and a password stand for under `scheme`.
pub open spec fn spec_phrase_secret(
    scheme: CryptoScheme,
    phrase: Seq<u8>,
    password: Seq<u8>,
) -> Result<Seq<u8>, SecretStringError> {
    match scheme {
        CryptoScheme::Sm2 => Pair::phrase_secret(phrase, password),
    }
}

/// Whether `signature` is one of `message` under `public` in `scheme`.
pub open spec fn spec_verifies(
    scheme: CryptoScheme,
    signature: Seq<u8>,
    message: Seq<u8>,
    public: Seq<u8>,
) -> bool {
    match scheme {
        CryptoScheme::Sm2 => Pair::verifies(signature, message, public),
    }
}

/// The scheme that `tag` names: `sm2` names the SM2 scheme, and no other
/// text names any.
pub open spec fn spec_scheme_of_tag(tag: Seq<u8>) -> Option<CryptoScheme> {
    if tag == seq![0x73u8, 0x6du8, 0x32u8] {
        Some(CryptoScheme::Sm2)
    } else {
        None
    }
}

/// The scheme that `tag` names.
pub fn scheme_of_tag(tag: &str) -> (scheme: Option<CryptoScheme>)
    ensures
        scheme == spec_scheme_of_tag(tag.spec_bytes()),
{
    let bytes = tag.as_bytes();
    if bytes.len() == 3 && bytes[0] == 0x73 && bytes[1] == 0x6d && bytes[2] == 0x32 {
        assert(bytes@ =~= seq![0x73u8, 0x6du8, 0x32u8]);
        Some(CryptoScheme::Sm2)
    } else {
        proof {
            if bytes@ == seq![0x73u8, 0x6du8, 0x32u8] {
                assert(bytes@[0] == 0x73 && bytes@[1] == 0x6d && bytes@[2] == 0x32);
            }
        }
        None
    }
}

/// The tag that names `scheme`.
pub fn tag_of_scheme(scheme: CryptoScheme) -> (tag: &'static str)
    ensures
        match scheme {
            CryptoScheme::Sm2 => tag@ == "sm2"@,
        },
{
    match scheme {
        CryptoScheme::Sm2 => "sm2",
    }
}

/// The number of bytes in a seed of `scheme`.
pub fn seed_len(scheme: CryptoScheme) -> (len: usize)
    ensures
        len == spec_seed_len(scheme),
{
    match scheme {
        CryptoScheme::Sm2 => Pair::seed_len(),
    }
}

/// The number of bytes in a public key of `scheme`.
pub fn public_len(scheme: CryptoScheme) -> (len: usize)
    ensures
        len == spec_public_len(scheme),
{
    match scheme {
        CryptoScheme::Sm2 => Pair::public_len(),
    }
}

/// The number of bytes in a signature of `scheme`.
pub fn signature_len(scheme: CryptoScheme) -> (len: usize)
    ensures
        len == spec_signature_len(scheme),
{
    match scheme {
        CryptoScheme::Sm2 => Pair::signature_len(),
    }
}

/// Whether `scheme` derives soft keys.
pub fn supports_soft_derivation(scheme: CryptoScheme) -> (soft: bool)
    ensures
        soft == spec_supports_soft(scheme),
{
    match scheme {
        CryptoScheme::Sm2 => Pair::supports_soft_derivation(),
    }
}

/// The public key of the pair of `seed`.
pub fn public_from_seed(scheme: CryptoScheme, seed: &[u8]) -> (out: Result<
    Vec<u8>,
    SecretStringError,
>)
    ensures
        seed@.len() != spec_seed_len(scheme) ==> out is Err,
        match out {
            Ok(public) => spec_public_of(scheme, seed@) == Some(public@),
            Err(e) => e == SecretStringError::InvalidSeedLength && spec_public_of(scheme, seed@)
                is None,
        },
{
    match scheme {
        CryptoScheme::Sm2 => public_of_seed::<Pair>(seed),
    }
}

/// The public key of the pair that a secret text stands for.
pub fn public_from_suri(scheme: CryptoScheme, suri: &str, password: Option<&str>) -> (out: Result<
    Vec<u8>,
    SecretStringError,
>)
    ensures
        match out {
            Ok(public) => spec_secret_of(scheme, suri.spec_bytes(), spec_bytes_of(password))
                matches Ok(secret) && spec_public_of(scheme, secret) == Some(public@),
            Err(e) => spec_secret_of(scheme, suri.spec_bytes(), spec_bytes_of(password)) == Err::<
                Seq<u8>,
                SecretStringError,
            >(e),
        },
{
    match scheme {
        CryptoScheme::Sm2 => public_of_suri::<Pair>(suri, password),
    }
}

/// The public key that `path` leads to from the pair of `seed`. A seed that
/// the scheme does not accept is refused as `InvalidSeedLength`, a path that
/// cannot be walked as `InvalidPath`.
pub fn derive_public(scheme: CryptoScheme, seed: &[u8], path: &[DeriveJunction]) -> (out: Result<
    Vec<u8>,
    SecretStringError,
>)
    ensures
        out == Err::<Vec<u8>, SecretStringError>(SecretStringError::InvalidSeedLength)
            <==> spec_public_of(scheme, seed@) is None,
        spec_public_of(scheme, seed@) is Some ==> match spec_derived(
            scheme,
            seed@,
            path_view(path@),
        ) {
            Ok(secret) => out matches Ok(public) && spec_public_of(scheme, secret) == Some(
                public@,
            ),
            Err(_) => out == Err::<Vec<u8>, SecretStringError>(SecretStringError::InvalidPath),
        },
{
    match scheme {
        CryptoScheme::Sm2 => derive_public_with::<Pair>(seed, path),
    }
}

/// A fresh pair of `scheme`: the phrase that it comes from and its public
/// key. The phrase is drawn at random; with `password` it stands for the
/// secret of the public key, which has the length of the scheme's keys.
pub fn generate(scheme: CryptoScheme, password: Option<&str>) -> (out: Option<(String, Vec<u8>)>)
    ensures
        out matches Some((phrase, public)) ==> spec_phrase_secret(
            scheme,
            encode_utf8(phrase@),
            spec_password(password),
        ) matches Ok(secret) && spec_public_of(scheme, secret) == Some(public@),
        out matches Some((phrase, public)) ==> public@.len() == spec_public_len(scheme),
{
    match scheme {
        CryptoScheme::Sm2 => match Pair::generate_with_phrase(password) {
            Some((pair, phrase, _)) => {
                proof {
                    pair.lemma_public_of_secret();
                }
                Some((phrase, pair.public_bytes()))
            },
            None => None,
        },
    }
}

/// Signs `message` with the pair that `suri` and `password` stand for, and
/// writes the signature in lowercase hexadecimal.
pub fn sign(scheme: CryptoScheme, suri: &str, password: &str, message: &[u8]) -> (out: Result<
    String,
    SignError,
>)
    ensures
        match spec_secret_of(scheme, suri.spec_bytes(), Some(password.spec_bytes())) {
            Err(e) => out == Err::<String, SignError>(SignError::Secret(e)),
            Ok(secret) => match out {
                Ok(text) => exists|signature: Seq<u8>|
                    text@ == hex_text(signature) && #[trigger] spec_verifies(
                        scheme,
                        signature,
                        message@,
                        spec_public_of(scheme, secret)->0,
                    ),
                Err(e) => e == SignError::NoSignature,
            },
        },
{
    match scheme {
        CryptoScheme::Sm2 => {
            let out = sign_with::<Pair>(suri, password, message);
            proof {
                if let Ok(text) = &out {
                    let secret = spec_secret_of(
                        scheme,
                        suri.spec_bytes(),
                        Some(password.spec_bytes()),
                    )->Ok_0;
                    let public = spec_public_of(scheme, secret)->0;
                    let signature = choose|signature: Seq<u8>|
                        text@ == hex_text(signature) && #[trigger] Pair::verifies(
                            signature,
                            message@,
                            public,
                        );
                    assert(spec_verifies(scheme, signature, message@, public));
                }
            }
            out
        },
    }
}

/// Whether `signature` is one of `message` under `public`. The answer is
/// `false` for bytes of a wrong length, as for a wrong signature.
pub fn verify(scheme: CryptoScheme, signature: &[u8], message: &[u8], public: &[u8]) -> (ok: bool)
    ensures
        ok == spec_verifies(scheme, signature@, message@, public@),
        ok ==> signature@.len() == spec_signature_len(scheme) && public@.len() == spec_public_len(
            scheme,
        ),
{
    match scheme {
        CryptoScheme::Sm2 => Pair::verify_bytes(signature, message, public),
    }
}

/// Writes `public` as an address text under `version`. The key must have the
/// length of the scheme's public keys.
pub fn encode_address(scheme: CryptoScheme, public: &[u8], version: u8) -> (out: Result<
    String,
    PublicError,
>)
    ensures
        public@.len() != spec_public_len(scheme) ==> out == Err::<String, PublicError>(
            PublicError::BadLength,
        ),
        public@.len() == spec_public_len(scheme) ==> match out {
            Ok(t) => spec_encode(version, public@) == Ok::<Seq<char>, PublicError>(t@),
            Err(e) => spec_encode(version, public@) == Err::<Seq<char>, PublicError>(e),
        },
        out matches Ok(t) ==> spec_decode(t@) == Ok::<(u8, Seq<u8>), PublicError>(
            (version, public@),
        ),
{
    if public.len() != public_len(scheme) {
        return Err(PublicError::BadLength);
    }
    encode(version, public)
}

/// The text of a signature: its bytes in lowercase hexadecimal.
pub fn signature_text(signature: &[u8]) -> (text: String)
    ensures
        text@ == hex_text(signature@),
{
    hex_encode(signature)
}

/// The public key of the pair of `seed` under the scheme of `A`.
pub fn public_of_seed<A: SchemeAdapter>(seed: &[u8]) -> (out: Result<Vec<u8>, SecretStringError>)
    ensures
        seed@.len() != A::spec_seed_len() ==> out is Err,
        match out {
            Ok(public) => A::public_of(seed@) == Some(public@),
            Err(e) => e == SecretStringError::InvalidSeedLength && A::public_of(seed@) is None,
        },
{
    match A::from_seed_slice(seed) {
        Ok(pair) => Ok(pair.public_bytes()),
        Err(e) => Err(e),
    }
}

/// The public key that `path` leads to from the pair of `seed` under the
/// scheme of `A`.
pub fn derive_public_with<A: SchemeAdapter>(seed: &[u8], path: &[DeriveJunction]) -> (out: Result<
    Vec<u8>,
    SecretStringError,
>)
    ensures
        out == Err::<Vec<u8>, SecretStringError>(SecretStringError::InvalidSeedLength)
            <==> A::public_of(seed@) is None,
        A::public_of(seed@) is Some ==> match spec_derive::<A>(seed@, path_view(path@)) {
            Ok(secret) => out matches Ok(public) && A::public_of(secret) == Some(public@),
            Err(_) => out == Err::<Vec<u8>, SecretStringError>(SecretStringError::InvalidPath),
        },
{
    let root = match A::from_seed_slice(seed) {
        Ok(root) => root,
        Err(e) => {
            return Err(e);
        },
    };
    match crate::derivation::derive::<A>(&root, path) {
        Ok(pair) => {
            proof {
                pair.lemma_public_of_secret();
            }
            Ok(pair.public_bytes())
        },
        Err(_) => Err(SecretStringError::InvalidPath),
    }
}

/// The public key of the pair that a secret text stands for under the scheme
/// of `A`.
pub fn public_of_suri<A: SchemeAdapter>(suri: &str, password: Option<&str>) -> (out: Result<
    Vec<u8>,
    SecretStringError,
>)
    ensures
        match out {
            Ok(public) => spec_from_string::<A>(suri.spec_bytes(), spec_bytes_of(password))
                matches Ok(secret) && A::public_of(secret) == Some(public@),
            Err(e) => spec_from_string::<A>(suri.spec_bytes(), spec_bytes_of(password)) == Err::<
                Seq<u8>,
                SecretStringError,
            >(e),
        },
{
    match from_string::<A>(suri, password) {
        Ok(pair) => {
            proof {
                pair.lemma_public_of_secret();
            }
            Ok(pair.public_bytes())
        },
        Err(e) => Err(e),
    }
}

/// Signs `message` with the pair that `suri` and `password` stand for under
/// the scheme of `A`, and writes the signature in lowercase hexadecimal.
pub fn sign_with<A: SchemeAdapter>(suri: &str, password: &str, message: &[u8]) -> (out: Result<
    String,
    SignError,
>)
    ensures
        match spec_from_string::<A>(suri.spec_bytes(), Some(password.spec_bytes())) {
            Err(e) => out == Err::<String, SignError>(SignError::Secret(e)),
            Ok(secret) => match out {
                Ok(text) => exists|signature: Seq<u8>|
                    text@ == hex_text(signature) && #[trigger] A::verifies(
                        signature,
                        message@,
                        A::public_of(secret)->0,
                    ),
                Err(e) => e == SignError::NoSignature,
            },
        },
{
    let pair = match from_string::<A>(suri, Some(password)) {
        Ok(pair) => pair,
        Err(e) => {
            return Err(SignError::Secret(e));
        },
    };
    proof {
        pair.lemma_public_of_secret();
    }
    match pair.sign_bytes(message) {
        Some(signature) => {
            let text = signature_text(signature.as_slice());
            assert(A::verifies(signature@, message@, A::public_of(pair.spec_secret())->0));
            Ok(text)
        },
        None => Err(SignError::NoSignature),
    }
}

} // verus!
