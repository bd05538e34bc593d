//! From a secret text to a key pair: the root pair of the secret, then the
//! walk along the path.

use vstd::prelude::*;
use vstd::string::StringSliceAdditionalSpecFns;
use crate::adapter::SchemeAdapter;
use crate::bytes::copy_range;
use crate::derivation::path_view;
use crate::derivation::spec_derive;
use crate::encoding::hex_bytes;
use crate::encoding::hex_decode;
use crate::encoding::is_hex;
use crate::error::SecretStringError;
use crate::junction::JunctionView;
use crate::suri::junction_of;
use crate::suri::parse_bytes;
use crate::suri::spec_parse;
use crate::suri::Segment;

verus! {

/// Whether `secret` starts with `0x`, the mark of a raw seed.
pub open spec fn has_hex_mark(secret: Seq<u8>) -> bool {
    secret.len() >= 2 && secret[0] == 0x30 && secret[1] == 0x78
}

/// The secret of the root pair that `secret` stands for.
///
/// Behind `0x` the secret is a raw seed in hexadecimal: it is refused as
/// `InvalidSeed` where it is not hexadecimal and as `InvalidSeedLength` where
/// the scheme does not accept the seed. Any other secret is a mnemonic phrase.
pub open spec fn spec_root<A: SchemeAdapter>(secret: Seq<u8>, password: Seq<u8>) -> Result<
    Seq<u8>,
    SecretStringError,
> {
    if has_hex_mark(secret) {
        let digits = secret.subrange(2, secret.len() as int);
        if !is_hex(digits) {
            Err(SecretStringError::InvalidSeed)
        } else if A::public_of(hex_bytes(digits)) is Some {
            Ok(hex_bytes(digits))
        } else {
            Err(SecretStringError::InvalidSeedLength)
        }
    } else {
        A::phrase_secret(secret, password)
    }
}

/// The password in force: the one given beside the text, else the one in the
/// text, else the empty one.
pub open spec fn password_in_force(given: Option<Seq<u8>>, written: Option<Seq<u8>>) -> Seq<u8> {
    match given {
        Some(p) => p,
        None => match written {
            Some(p) => p,
            None => Seq::empty(),
        },
    }
}

/// The junctions that the segments of a path stand for.
pub open spec fn junctions_of(path: Seq<Segment>) -> Seq<JunctionView> {
    Seq::new(path.len(), |i: int| junction_of(path[i]))
}

/// The secret of the pair that the secret text `text` stands for, or why
/// there is none. A path that cannot be walked is refused as `InvalidPath`.
pub open spec fn spec_from_string<A: SchemeAdapter>(
    text: Seq<u8>,
    password_override: Option<Seq<u8>>,
) -> Result<Seq<u8>, SecretStringError> {
    match spec_parse(text) {
        None => Err(SecretStringError::InvalidFormat),
        Some(model) => match spec_root::<A>(
            model.secret,
            password_in_force(password_override, model.password),
        ) {
            Err(e) => Err(e),
            Ok(root) => match spec_derive::<A>(root, junctions_of(model.path)) {
                Ok(secret) => Ok(secret),
                Err(_) => Err(SecretStringError::InvalidPath),
            },
        },
    }
}

/// The bytes of an optional text.
pub open spec fn spec_bytes_of(text: Option<&str>) -> Option<Seq<u8>> {
    match text {
        Some(t) => Some(t.spec_bytes()),
        None => None,
    }
}

/// The root pair that `secret` stands for under `password`.
pub fn root_pair<A: SchemeAdapter>(secret: &[u8], password: &[u8]) -> (out: Result<
    A,
    SecretStringError,
>)
    ensures
        match out {
            Ok(pair) => pair.wf() && spec_root::<A>(secret@, password@) == Ok::<
                Seq<u8>,
                SecretStringError,
            >(pair.spec_secret()),
            Err(e) => spec_root::<A>(secret@, password@) == Err::<Seq<u8>, SecretStringError>(e),
        },
{
    if secret.len() >= 2 && secret[0] == 0x30 && secret[1] == 0x78 {
        let digits = copy_range(secret, 2, secret.len());
        match hex_decode(digits.as_slice()) {
            None => Err(SecretStringError::InvalidSeed),
            Some(seed) => A::from_seed_slice(seed.as_slice()),
        }
    } else {
        A::from_phrase_bytes(secret, password)
    }
}

/// The pair that the secret text `text` stands for.
///
/// The text is parsed, the root pair is made from its secret, and the path is
/// walked from the root. A password given beside the text goes before the one
/// that the text holds.
pub fn from_string<A: SchemeAdapter>(text: &str, password_override: Option<&str>) -> (out: Result<
    A,
    SecretStringError,
>)
    ensures
        match out {
            Ok(pair) => pair.wf() && spec_from_string::<A>(
                text.spec_bytes(),
                spec_bytes_of(password_override),
            ) == Ok::<Seq<u8>, SecretStringError>(pair.spec_secret()),
            Err(e) => spec_from_string::<A>(text.spec_bytes(), spec_bytes_of(password_override))
                == Err::<Seq<u8>, SecretStringError>(e),
        },
{
    let uri = match parse_bytes(text.as_bytes()) {
        Ok(uri) => uri,
        Err(_) => {
            return Err(SecretStringError::InvalidFormat);
        },
    };
    let ghost model = spec_parse(text.spec_bytes())->0;
    let empty: Vec<u8> = Vec::new();
    let root = match password_override {
        Some(p) => root_pair::<A>(uri.phrase.as_slice(), p.as_bytes()),
        None => match &uri.password {
            Some(p) => root_pair::<A>(uri.phrase.as_slice(), p.as_slice()),
            None => root_pair::<A>(uri.phrase.as_slice(), empty.as_slice()),
        },
    };
    let root = match root {
        Ok(root) => root,
        Err(e) => {
            return Err(e);
        },
    };
    proof {
        assert(path_view(uri.junctions@) =~= junctions_of(model.path));
    }
    match crate::derivation::derive::<A>(&root, uri.junctions.as_slice()) {
        Ok(pair) => Ok(pair),
        Err(_) => Err(SecretStringError::InvalidPath),
    }
}

/// The seed that a text stands for when nothing else can be made of it: its
/// first `len` bytes, filled up with spaces.
pub open spec fn legacy_seed(text: Seq<u8>, len: nat) -> Seq<u8> {
    Seq::new(
        len,
        |i: int|
            if i < text.len() {
                text[i]
            } else {
                0x20u8
            },
    )
}

/// The first `len` bytes of `text`, filled up with spaces.
pub fn pad_with_spaces(text: &[u8], len: usize) -> (seed: Vec<u8>)
    ensures
        seed@ == legacy_seed(text@, len as nat),
{
    let mut seed: Vec<u8> = Vec::new();
    let mut i: usize = 0;
    while i < len
        invariant
            i <= len,
            seed@ == legacy_seed(text@, i as nat),
        decreases len - i,
    {
        if i < text.len() {
            seed.push(text[i]);
        } else {
            seed.push(0x20);
        }
        i += 1;
        assert(seed@ =~= legacy_seed(text@, i as nat));
    }
    seed
}

/// The pair that the secret text `text` stands for; where it stands for
/// none, the pair of its first bytes, as many as a seed has, filled up with
/// spaces.
///
/// There is no pair where the text stands for none and the scheme does not
/// accept the filled-up bytes either.
pub fn from_legacy_string<A: SchemeAdapter>(text: &str, password_override: Option<&str>) -> (out:
    Result<A, SecretStringError>)
    ensures
        match spec_from_string::<A>(text.spec_bytes(), spec_bytes_of(password_override)) {
            Ok(secret) => out matches Ok(pair) && pair.wf() && pair.spec_secret() == secret,
            Err(_) => match out {
                Ok(pair) => pair.wf() && pair.spec_secret() == legacy_seed(
                    text.spec_bytes(),
                    A::spec_seed_len(),
                ),
                Err(e) => e == SecretStringError::InvalidSeedLength && A::public_of(
                    legacy_seed(text.spec_bytes(), A::spec_seed_len()),
                ) is None,
            },
        },
{
    match from_string::<A>(text, password_override) {
        Ok(pair) => Ok(pair),
        Err(_) => {
            let seed = pad_with_spaces(text.as_bytes(), A::seed_len());
            A::from_seed_slice(seed.as_slice())
        },
    }
}

} // verus!
