//! The SM2 signature scheme: compressed public keys, signatures that carry
//! the signer's public key, and pairs made from a 32-byte seed.

use vstd::prelude::*;
use vstd::string::StringSliceAdditionalSpecFns;
use vstd::utf8::decode_utf8;
use vstd::utf8::encode_utf8;
use vstd::utf8::encode_utf8_decode_utf8;
use vstd::utf8::valid_utf8;
use crate::adapter::SchemeAdapter;
use crate::bytes::append;
use crate::bytes::copy_range;
use crate::bytes::equal;
use crate::bytes::to_array;
use crate::curve::sm2_compress;
use crate::curve::sm2_compressed;
use crate::curve::sm2_public_key;
use crate::curve::sm2_public_of_seed;
use crate::curve::sm2_sign;
use crate::curve::sm2_signature_valid;
use crate::curve::sm2_verify;
use crate::derivation::derive_hard_seed;
use crate::derivation::hard_seed;
use crate::derivation::has_soft;
use crate::derivation::path_view;
use crate::derivation::spec_derive;
use crate::encoding::utf8_text;
use crate::error::DeriveError;
use crate::error::SecretStringError;
use crate::junction::DeriveJunction;
use crate::mnemonic::entropy_seed;
use crate::mnemonic::mnemonic_entropy;
use crate::mnemonic::phrase_entropy;
use crate::mnemonic::random_phrase;
use crate::mnemonic::stretch_entropy;
use crate::secret::from_legacy_string;
use crate::secret::from_string;
use crate::secret::legacy_seed;
use crate::ss58::decode;
use crate::ss58::encode;
use crate::ss58::is_registered_version;
use crate::ss58::spec_decode;
use crate::ss58::spec_encode;
use crate::ss58::PublicError;
use crate::ss58::DEFAULT_VERSION;
use crate::secret::spec_bytes_of;
use crate::secret::spec_from_string;

verus! {

/// The number of bytes in a seed.
pub const SEED_LEN: usize = 32;

/// The number of bytes in a compressed public key.
pub const PUBLIC_LEN: usize = 33;

/// The number of bytes in a signature: two 32-byte numbers and the signer's
/// compressed public key.
pub const SIGNATURE_LEN: usize = 97;

/// A secret seed.
pub type Seed = [u8; 32];

/// The mark of an SM2 key among keys of other schemes: `csm2`.
pub const CRYPTO_ID: [u8; 4] = [0x63, 0x73, 0x6d, 0x32];

/// A public key with the mark of its scheme.
#[derive(Clone, PartialEq, Eq, Debug)]
pub struct CryptoTypePublicPair(pub [u8; 4], pub Vec<u8>);

/// A compressed public key.
#[derive(Clone, Copy, PartialEq, Eq, PartialOrd, Ord, Hash, Debug)]
pub struct Public(pub [u8; 33]);

impl View for Public {
    type V = Seq<u8>;

    open spec fn view(&self) -> Seq<u8> {
        self.0@
    }
}

impl Public {
    /// The key that holds `data`. Nothing checks that `data` is a point of
    /// the curve.
    pub fn from_raw(data: [u8; 33]) -> (public: Public)
        ensures
            public@ == data@,
    {
        Public(data)
    }

    /// The compressed form of the public key `full`; it starts with the byte
    /// 2 or 3.
    pub fn from_full(full: &[u8]) -> (out: Result<Public, ()>)
        ensures
            match out {
                Ok(public) => sm2_compressed(full@) == Some(public@) && (public@[0] == 2
                    || public@[0] == 3),
                Err(_) => sm2_compressed(full@) is None,
            },
    {
        match sm2_compress(full) {
            Some(c) => Ok(Public::from_raw(c)),
            None => Err(()),
        }
    }

    /// The bytes of the key.
    pub fn into_slice(&self) -> (data: &[u8; 33])
        ensures
            data@ == self@,
    {
        &self.0
    }

    /// The key that holds the 33 bytes of `data`.
    pub fn from_slice(data: &[u8]) -> (public: Public)
        requires
            data@.len() == PUBLIC_LEN,
        ensures
            public@ == data@,
    {
        Public(to_array::<33>(data))
    }

    /// The key that holds `data`, where `data` has 33 bytes.
    pub fn try_from(data: &[u8]) -> (out: Result<Public, ()>)
        ensures
            out is Ok <==> data@.len() == PUBLIC_LEN,
            out matches Ok(public) ==> public@ == data@,
    {
        if data.len() == 33 {
            Ok(Public::from_slice(data))
        } else {
            Err(())
        }
    }

    /// The bytes of the key.
    pub fn to_raw_vec(&self) -> (data: Vec<u8>)
        ensures
            data@ == self@,
    {
        copy_range(self.0.as_slice(), 0, 33)
    }

    /// The key with the mark of its scheme.
    pub fn to_public_crypto_pair(&self) -> (marked: CryptoTypePublicPair)
        ensures
            marked.0 == CRYPTO_ID,
            marked.1@ == self@,
    {
        CryptoTypePublicPair(CRYPTO_ID, self.to_raw_vec())
    }

    /// The address text of the key under `version`; `UnknownVersion` where
    /// the version is not registered. Reading the text gives the key back.
    pub fn to_ss58check_with_version(&self, version: u8) -> (out: Result<String, PublicError>)
        ensures
            match out {
                Ok(text) => is_registered_version(version) && spec_encode(version, self@) == Ok::<
                    Seq<char>,
                    PublicError,
                >(text@) && spec_decode(text@) == Ok::<(u8, Seq<u8>), PublicError>(
                    (version, self@),
                ),
                Err(e) => e == PublicError::UnknownVersion && !is_registered_version(version),
            },
    {
        encode(version, self.0.as_slice())
    }

    /// The address text of the key under the default version.
    pub fn to_ss58check(&self) -> (text: String)
        ensures
            spec_encode(DEFAULT_VERSION, self@) == Ok::<Seq<char>, PublicError>(text@),
            spec_decode(text@) == Ok::<(u8, Seq<u8>), PublicError>((DEFAULT_VERSION, self@)),
    {
        match self.to_ss58check_with_version(DEFAULT_VERSION) {
            Ok(text) => text,
            Err(_) => {
                assert(false);
                String::new()
            },
        }
    }

    /// The key and the version that an address text holds. A text that holds
    /// a key of another length than 33 bytes is refused as `BadLength`.
    pub fn from_ss58check_with_version(text: &str) -> (out: Result<(Public, u8), PublicError>)
        ensures
            match spec_decode(text@) {
                Ok((version, key)) => if key.len() == PUBLIC_LEN {
                    out matches Ok((public, v)) && public@ == key && v == version
                } else {
                    out == Err::<(Public, u8), PublicError>(PublicError::BadLength)
                },
                Err(e) => out == Err::<(Public, u8), PublicError>(e),
            },
    {
        match decode(text) {
            Ok((version, key)) => {
                if key.len() != 33 {
                    return Err(PublicError::BadLength);
                }
                Ok((Public::from_slice(key.as_slice()), version))
            },
            Err(e) => Err(e),
        }
    }

    /// The key that an address text holds, under whatever registered version.
    pub fn from_ss58check(text: &str) -> (out: Result<Public, PublicError>)
        ensures
            match spec_decode(text@) {
                Ok((version, key)) => if key.len() == PUBLIC_LEN {
                    out matches Ok(public) && public@ == key
                } else {
                    out == Err::<Public, PublicError>(PublicError::BadLength)
                },
                Err(e) => out == Err::<Public, PublicError>(e),
            },
    {
        match Public::from_ss58check_with_version(text) {
            Ok((public, _)) => Ok(public),
            Err(e) => Err(e),
        }
    }
}

impl Default for Public {
    fn default() -> (public: Public)
        ensures
            public@ == Seq::new(33, |i: int| 0u8),
    {
        let public = Public([0u8; 33]);
        assert(public@ =~= Seq::new(33, |i: int| 0u8));
        public
    }
}

/// A signature: the two numbers `r` and `s`, 32 bytes each, and the signer's
/// compressed public key.
#[derive(Clone, Copy, PartialEq, Eq, Hash, Debug)]
pub struct Signature(pub [u8; 97]);

impl View for Signature {
    type V = Seq<u8>;

    open spec fn view(&self) -> Seq<u8> {
        self.0@
    }
}

impl Signature {
    /// The signature that holds `data`. Nothing checks that `data` verifies.
    pub fn from_raw(data: [u8; 97]) -> (signature: Signature)
        ensures
            signature@ == data@,
    {
        Signature(data)
    }

    /// The signature that holds the 97 bytes of `data`.
    pub fn from_slice(data: &[u8]) -> (signature: Signature)
        requires
            data@.len() == SIGNATURE_LEN,
        ensures
            signature@ == data@,
    {
        Signature(to_array::<97>(data))
    }

    /// The signature that holds `data`, where `data` has 97 bytes.
    pub fn try_from(data: &[u8]) -> (out: Result<Signature, ()>)
        ensures
            out is Ok <==> data@.len() == SIGNATURE_LEN,
            out matches Ok(signature) ==> signature@ == data@,
    {
        if data.len() == 97 {
            Ok(Signature::from_slice(data))
        } else {
            Err(())
        }
    }

    /// The signature made of the numbers `r` and `s` and the signer's key.
    pub fn from_parts(r: &[u8; 32], s: &[u8; 32], public: &Public) -> (signature: Signature)
        ensures
            signature@ == r@ + s@ + public@,
    {
        let mut buf = [0u8; 97];
        let mut i: usize = 0;
        while i < 97
            invariant
                i <= 97,
                buf@.len() == 97,
                forall|j: int| 0 <= j < i ==> buf@[j] == (r@ + s@ + public@)[j],
            decreases 97 - i,
        {
            if i < 32 {
                buf[i] = r[i];
            } else if i < 64 {
                buf[i] = s[i - 32];
            } else {
                buf[i] = public.0[i - 64];
            }
            i += 1;
        }
        assert(buf@ =~= r@ + s@ + public@);
        Signature(buf)
    }

    /// The two numbers of the signature: its first 64 bytes.
    pub fn into_sm2_sig(&self) -> (rs: [u8; 64])
        ensures
            rs@ == self@.subrange(0, 64),
    {
        to_array::<64>(copy_range(self.0.as_slice(), 0, 64).as_slice())
    }

    /// The public key that the signature carries: its last 33 bytes.
    pub fn into_sm2_pk(&self) -> (public: [u8; 33])
        ensures
            public@ == self@.subrange(64, 97),
    {
        to_array::<33>(copy_range(self.0.as_slice(), 64, 97).as_slice())
    }

    /// The bytes of the signature.
    pub fn to_raw_vec(&self) -> (data: Vec<u8>)
        ensures
            data@ == self@,
    {
        copy_range(self.0.as_slice(), 0, 97)
    }
}

impl Default for Signature {
    fn default() -> (signature: Signature)
        ensures
            signature@ == Seq::new(97, |i: int| 0u8),
    {
        let signature = Signature([0u8; 97]);
        assert(signature@ =~= Seq::new(97, |i: int| 0u8));
        signature
    }
}

/// `number` as 32 big-endian bytes: zeros, then `number`. None where `number`
/// has more than 32 bytes.
pub open spec fn spec_left_pad(number: Seq<u8>) -> Option<Seq<u8>> {
    if number.len() > 32 {
        None
    } else {
        Some(Seq::new((32 - number.len()) as nat, |i: int| 0u8) + number)
    }
}

/// Pads `number` with leading zeros to 32 bytes.
pub fn left_pad(number: &[u8]) -> (out: Option<[u8; 32]>)
    ensures
        match out {
            Some(padded) => spec_left_pad(number@) == Some(padded@),
            None => spec_left_pad(number@) is None,
        },
{
    let n = number.len();
    if n > 32 {
        return None;
    }
    let mut padded: Vec<u8> = Vec::new();
    while padded.len() < 32 - n
        invariant
            n == number@.len(),
            n <= 32,
            padded@.len() <= 32 - n,
            padded@ == Seq::new(padded@.len(), |i: int| 0u8),
        decreases 32 - n - padded@.len(),
    {
        padded.push(0);
        assert(padded@ =~= Seq::new(padded@.len(), |i: int| 0u8));
    }
    append(&mut padded, number);
    Some(to_array::<32>(padded.as_slice()))
}

/// Whether the 97 bytes of `signature` sign `message` under the 33 bytes of
/// `public`: the key that the signature carries is `public`, and its two
/// numbers sign the message under that key.
pub open spec fn spec_verify(signature: Seq<u8>, message: Seq<u8>, public: Seq<u8>) -> bool {
    &&& signature.len() == SIGNATURE_LEN
    &&& public.len() == PUBLIC_LEN
    &&& signature.subrange(64, 97) == public
    &&& sm2_signature_valid(signature.subrange(0, 64), message, public)
}

/// The bytes of the tag of SM2's hard derivation.
pub open spec fn domain_tag() -> Seq<u8> {
    seq![0x53u8, 0x43u8, 0x41u8, 0x32u8, 0x35u8, 0x36u8, 0x48u8, 0x44u8, 0x4bu8, 0x44u8]
}

/// The seed that a mnemonic phrase and a password stand for: the first 32 of
/// the 64 bytes stretched from the phrase's entropy. The phrase is refused as
/// `InvalidPhrase` where it is no text or no mnemonic, the entropy as
/// `InvalidSeed` where the password is no text or the entropy cannot be
/// stretched, and the seed as `InvalidSeedLength` where the curve does not
/// accept it.
pub open spec fn spec_phrase_seed(phrase: Seq<u8>, password: Seq<u8>) -> Result<
    Seq<u8>,
    SecretStringError,
> {
    if !valid_utf8(phrase) {
        Err(SecretStringError::InvalidPhrase)
    } else {
        match mnemonic_entropy(decode_utf8(phrase)) {
            None => Err(SecretStringError::InvalidPhrase),
            Some(entropy) => if !valid_utf8(password) {
                Err(SecretStringError::InvalidSeed)
            } else {
                match entropy_seed(entropy, decode_utf8(password)) {
                    None => Err(SecretStringError::InvalidSeed),
                    Some(big) => if sm2_public_of_seed(big.subrange(0, 32)) is Some {
                        Ok(big.subrange(0, 32))
                    } else {
                        Err(SecretStringError::InvalidSeedLength)
                    },
                }
            },
        }
    }
}

/// The seed of the hard child of `secret_seed` under `cc`: the 32-byte digest
/// of the length-prefixed tag, the seed and the chain code.
pub fn derive_hard_junction(secret_seed: &Seed, cc: &[u8; 32]) -> (seed: Seed)
    ensures
        seed@ == hard_seed::<Pair>(secret_seed@, cc@),
{
    let next = derive_hard_seed::<Pair>(secret_seed.as_slice(), cc);
    to_array::<32>(next.as_slice())
}

/// The bytes of a password; none where there is no password.
pub open spec fn spec_password(password: Option<&str>) -> Seq<u8> {
    match password {
        Some(p) => p.spec_bytes(),
        None => Seq::empty(),
    }
}

/// A key pair: a seed and the compressed public key of the seed.
pub struct Pair {
    public: [u8; 33],
    secret: [u8; 32],
}

impl Clone for Pair {
    fn clone(&self) -> (copy: Pair)
        ensures
            copy == *self,
    {
        proof {
            use_type_invariant(self);
        }
        Pair { public: self.public, secret: self.secret }
    }
}

impl Pair {
    #[verifier::type_invariant]
    closed spec fn holds_own_public(self) -> bool {
        &&& sm2_public_of_seed(self.secret@) == Some(self.public@)
        &&& self.public@[0] == 2 || self.public@[0] == 3
    }

    /// The pair of a seed. The seed is refused as `InvalidSeedLength` where it
    /// has not 32 bytes or the curve does not accept it as a secret number.
    pub fn from_seed_slice(seed_slice: &[u8]) -> (out: Result<Pair, SecretStringError>)
        ensures
            seed_slice@.len() != SEED_LEN ==> out is Err,
            match out {
                Ok(pair) => pair.wf() && pair.spec_secret() == seed_slice@
                    && sm2_public_of_seed(seed_slice@) == Some(pair.spec_public()),
                Err(e) => e == SecretStringError::InvalidSeedLength && sm2_public_of_seed(
                    seed_slice@,
                ) is None,
            },
    {
        match sm2_public_key(seed_slice) {
            Some(public) => Ok(Pair { public, secret: to_array::<32>(seed_slice) }),
            None => Err(SecretStringError::InvalidSeedLength),
        }
    }

    /// The pair of a seed; see `from_seed_slice`.
    pub fn from_seed(seed: &Seed) -> (out: Result<Pair, SecretStringError>)
        ensures
            match out {
                Ok(pair) => pair.wf() && pair.spec_secret() == seed@ && sm2_public_of_seed(
                    seed@,
                ) == Some(pair.spec_public()),
                Err(e) => e == SecretStringError::InvalidSeedLength && sm2_public_of_seed(seed@)
                    is None,
            },
    {
        Pair::from_seed_slice(seed.as_slice())
    }

    /// The public key: a compressed point, which starts with the byte 2 or 3.
    pub fn public(&self) -> (public: Public)
        ensures
            public@ == self.spec_public(),
            public@[0] == 2 || public@[0] == 3,
            self.wf(),
    {
        proof {
            use_type_invariant(self);
        }
        Public(self.public)
    }

    /// The seed.
    pub fn seed(&self) -> (seed: Seed)
        ensures
            seed@ == self.spec_secret(),
            self.wf(),
    {
        proof {
            use_type_invariant(self);
        }
        self.secret
    }

    /// The seed, as a vector.
    pub fn to_raw_vec(&self) -> (raw: Vec<u8>)
        ensures
            raw@ == self.spec_secret(),
    {
        copy_range(self.secret.as_slice(), 0, 32)
    }

    /// Whether `sig` signs `message` under `pubkey`.
    ///
    /// The answer is `false` for a signature that carries another key than
    /// `pubkey`, and for every signature that the curve does not accept,
    /// whatever the reason.
    pub fn verify(sig: &Signature, message: &[u8], pubkey: &Public) -> (ok: bool)
        ensures
            ok == spec_verify(sig@, message@, pubkey@),
    {
        let carried = sig.into_sm2_pk();
        if !equal(carried.as_slice(), pubkey.0.as_slice()) {
            return false;
        }
        let rs = sig.into_sm2_sig();
        sm2_verify(&rs, message, &pubkey.0)
    }

    /// Whether the bytes `sig` sign `message` under the bytes `pubkey`. Bytes
    /// of a wrong length verify nothing.
    pub fn verify_weak(sig: &[u8], message: &[u8], pubkey: &[u8]) -> (ok: bool)
        ensures
            ok == spec_verify(sig@, message@, pubkey@),
    {
        if sig.len() != 97 || pubkey.len() != 33 {
            return false;
        }
        Pair::verify(&Signature::from_slice(sig), message, &Public::from_slice(pubkey))
    }

    /// The signature that the numbers `r` and `s` make with the pair's public
    /// key, where both fit in 32 bytes and the signature verifies for
    /// `message` under that key.
    pub fn seal(&self, r: &[u8], s: &[u8], message: &[u8]) -> (out: Option<Signature>)
        ensures
            match out {
                Some(signature) => spec_left_pad(r@) is Some && spec_left_pad(s@) is Some
                    && signature@ == spec_left_pad(r@)->0 + spec_left_pad(s@)->0
                    + self.spec_public() && spec_verify(
                    signature@,
                    message@,
                    self.spec_public(),
                ),
                None => spec_left_pad(r@) is None || spec_left_pad(s@) is None || !spec_verify(
                    spec_left_pad(r@)->0 + spec_left_pad(s@)->0 + self.spec_public(),
                    message@,
                    self.spec_public(),
                ),
            },
    {
        let public = self.public();
        match (left_pad(r), left_pad(s)) {
            (Some(r32), Some(s32)) => {
                let signature = Signature::from_parts(&r32, &s32, &public);
                if Pair::verify(&signature, message, &public) {
                    Some(signature)
                } else {
                    None
                }
            },
            _ => None,
        }
    }

    /// Signs `message`.
    ///
    /// The curve draws a random number for each signature, so two calls give
    /// different signatures. Each signature is verified before it is handed
    /// out: one that is returned verifies for `message` under the pair's
    /// public key, and carries that key.
    pub fn sign(&self, message: &[u8]) -> (out: Option<Signature>)
        ensures
            out matches Some(signature) ==> spec_verify(
                signature@,
                message@,
                self.spec_public(),
            ) && signature@.subrange(64, 97) == self.spec_public(),
    {
        match sm2_sign(message, &self.secret, &self.public) {
            Some((r, s)) => {
                let out = self.seal(r.as_slice(), s.as_slice(), message);
                proof {
                    if let Some(signature) = out {
                        assert(signature@.subrange(64, 97) =~= self.spec_public());
                    }
                }
                out
            },
            None => None,
        }
    }

    /// The pair and the seed that a mnemonic phrase and a password stand for.
    /// Without a password the empty one is taken.
    pub fn from_phrase(phrase: &str, password: Option<&str>) -> (out: Result<
        (Pair, Seed),
        SecretStringError,
    >)
        ensures
            match out {
                Ok((pair, seed)) => pair.wf() && pair.spec_secret() == seed@
                    && spec_phrase_seed(phrase.spec_bytes(), spec_password(password)) == Ok::<
                    Seq<u8>,
                    SecretStringError,
                >(seed@),
                Err(e) => spec_phrase_seed(phrase.spec_bytes(), spec_password(password)) == Err::<
                    Seq<u8>,
                    SecretStringError,
                >(e),
            },
    {
        let password_bytes: Vec<u8> = match password {
            Some(p) => copy_range(p.as_bytes(), 0, p.as_bytes().len()),
            None => Vec::new(),
        };
        proof {
            if let Some(p) = password {
                assert(p.spec_bytes().subrange(0, p.spec_bytes().len() as int) =~= p.spec_bytes());
            }
        }
        match Pair::from_phrase_bytes(phrase.as_bytes(), password_bytes.as_slice()) {
            Ok(pair) => {
                let seed = pair.seed();
                Ok((pair, seed))
            },
            Err(e) => Err(e),
        }
    }

    /// A fresh pair with the phrase and the seed that it comes from.
    ///
    /// The phrase is drawn at random. What is returned is what `from_phrase`
    /// gives for that phrase and `password`; nothing is returned where it
    /// gives none.
    pub fn generate_with_phrase(password: Option<&str>) -> (out: Option<(Pair, String, Seed)>)
        ensures
            out matches Some((pair, phrase, seed)) ==> pair.wf() && pair.spec_secret()
                == seed@ && spec_phrase_seed(encode_utf8(phrase@), spec_password(password)) == Ok::<
                Seq<u8>,
                SecretStringError,
            >(seed@),
    {
        let phrase = random_phrase();
        match Pair::from_phrase(phrase.as_str(), password) {
            Ok((pair, seed)) => Some((pair, phrase, seed)),
            Err(_) => None,
        }
    }

    /// Derives the pair that `path` leads to from this one, and hands it out
    /// with its seed.
    ///
    /// A soft junction anywhere in the path fails with `SoftKeyInPath`. A
    /// hard junction whose seed the curve does not accept fails with
    /// `InvalidSeed`.
    pub fn derive(&self, path: &[DeriveJunction], _seed: Option<Seed>) -> (out: Result<
        (Pair, Option<Seed>),
        DeriveError,
    >)
        ensures
            match out {
                Ok((pair, seed)) => {
                    &&& pair.wf()
                    &&& seed matches Some(s) && s@ == pair.spec_secret()
                    &&& spec_derive::<Pair>(self.spec_secret(), path_view(path@)) == Ok::<
                        Seq<u8>,
                        DeriveError,
                    >(pair.spec_secret())
                },
                Err(e) => spec_derive::<Pair>(self.spec_secret(), path_view(path@)) == Err::<
                    Seq<u8>,
                    DeriveError,
                >(e),
            },
            out matches Err(DeriveError::SoftKeyInPath) <==> has_soft(path_view(path@)),
    {
        proof {
            use_type_invariant(self);
        }
        match crate::derivation::derive::<Pair>(self, path) {
            Ok(pair) => {
                let seed = pair.seed();
                Ok((pair, Some(seed)))
            },
            Err(e) => Err(e),
        }
    }

    /// The pair that the secret text `s` stands for.
    pub fn from_string(s: &str, password_override: Option<&str>) -> (out: Result<
        Pair,
        SecretStringError,
    >)
        ensures
            match out {
                Ok(pair) => pair.wf() && spec_from_string::<Pair>(
                    s.spec_bytes(),
                    spec_bytes_of(password_override),
                ) == Ok::<Seq<u8>, SecretStringError>(pair.spec_secret()),
                Err(e) => spec_from_string::<Pair>(
                    s.spec_bytes(),
                    spec_bytes_of(password_override),
                ) == Err::<Seq<u8>, SecretStringError>(e),
            },
    {
        from_string::<Pair>(s, password_override)
    }

    /// The pair that the secret text `s` stands for; where it stands for
    /// none, the pair of its first 32 bytes, filled up with spaces.
    ///
    /// There is no pair where the text stands for none and the curve does not
    /// accept the filled-up bytes either.
    pub fn from_legacy_string(s: &str, password_override: Option<&str>) -> (out: Result<
        Pair,
        SecretStringError,
    >)
        ensures
            match spec_from_string::<Pair>(s.spec_bytes(), spec_bytes_of(password_override)) {
                Ok(secret) => out matches Ok(pair) && pair.wf() && pair.spec_secret() == secret,
                Err(_) => match out {
                    Ok(pair) => pair.wf() && pair.spec_secret() == legacy_seed(
                        s.spec_bytes(),
                        SEED_LEN as nat,
                    ),
                    Err(e) => e == SecretStringError::InvalidSeedLength && sm2_public_of_seed(
                        legacy_seed(s.spec_bytes(), SEED_LEN as nat),
                    ) is None,
                },
            },
    {
        from_legacy_string::<Pair>(s, password_override)
    }
}

impl SchemeAdapter for Pair {
    closed spec fn spec_secret(&self) -> Seq<u8> {
        self.secret@
    }

    closed spec fn spec_public(&self) -> Seq<u8> {
        self.public@
    }

    closed spec fn wf(&self) -> bool {
        sm2_public_of_seed(self.secret@) == Some(self.public@)
    }

    open spec fn spec_seed_len() -> nat {
        SEED_LEN as nat
    }

    open spec fn spec_public_len() -> nat {
        PUBLIC_LEN as nat
    }

    open spec fn spec_signature_len() -> nat {
        SIGNATURE_LEN as nat
    }

    open spec fn spec_supports_soft() -> bool {
        false
    }

    open spec fn spec_domain_tag() -> Seq<u8> {
        domain_tag()
    }

    open spec fn public_of(secret: Seq<u8>) -> Option<Seq<u8>> {
        sm2_public_of_seed(secret)
    }

    open spec fn soft_child(secret: Seq<u8>, chain_code: Seq<u8>) -> Option<Seq<u8>> {
        None
    }

    open spec fn phrase_secret(phrase: Seq<u8>, password: Seq<u8>) -> Result<
        Seq<u8>,
        SecretStringError,
    > {
        spec_phrase_seed(phrase, password)
    }

    open spec fn verifies(signature: Seq<u8>, message: Seq<u8>, public: Seq<u8>) -> bool {
        spec_verify(signature, message, public)
    }

    proof fn lemma_public_of_secret(&self) {
    }

    fn seed_len() -> (len: usize) {
        SEED_LEN
    }

    fn public_len() -> (len: usize) {
        PUBLIC_LEN
    }

    fn signature_len() -> (len: usize) {
        SIGNATURE_LEN
    }

    fn supports_soft_derivation() -> (soft: bool) {
        false
    }

    fn domain_tag() -> (tag: Vec<u8>) {
        let mut tag: Vec<u8> = Vec::new();
        tag.push(0x53);
        tag.push(0x43);
        tag.push(0x41);
        tag.push(0x32);
        tag.push(0x35);
        tag.push(0x36);
        tag.push(0x48);
        tag.push(0x44);
        tag.push(0x4b);
        tag.push(0x44);
        assert(tag@ =~= domain_tag());
        tag
    }

    fn from_seed_slice(seed: &[u8]) -> (out: Result<Self, SecretStringError>) {
        Pair::from_seed_slice(seed)
    }

    fn from_phrase_bytes(phrase: &[u8], password: &[u8]) -> (out: Result<Self, SecretStringError>) {
        let phrase_text = match utf8_text(phrase) {
            Some(text) => text,
            None => {
                return Err(SecretStringError::InvalidPhrase);
            },
        };
        proof {
            encode_utf8_decode_utf8(phrase_text@);
        }
        let entropy = match phrase_entropy(phrase_text) {
            Some(e) => e,
            None => {
                return Err(SecretStringError::InvalidPhrase);
            },
        };
        let password_text = match utf8_text(password) {
            Some(text) => text,
            None => {
                return Err(SecretStringError::InvalidSeed);
            },
        };
        proof {
            encode_utf8_decode_utf8(password_text@);
        }
        let big_seed = match stretch_entropy(entropy.as_slice(), password_text) {
            Some(s) => s,
            None => {
                return Err(SecretStringError::InvalidSeed);
            },
        };
        let seed = copy_range(big_seed.as_slice(), 0, 32);
        Pair::from_seed_slice(seed.as_slice())
    }

    fn derive_soft(&self, chain_code: &[u8; 32]) -> (out: Option<Self>) {
        None
    }

    fn duplicate(&self) -> (copy: Self) {
        self.clone()
    }

    fn secret_bytes(&self) -> (secret: Vec<u8>) {
        self.to_raw_vec()
    }

    fn public_bytes(&self) -> (public: Vec<u8>) {
        copy_range(self.public.as_slice(), 0, 33)
    }

    fn sign_bytes(&self, message: &[u8]) -> (out: Option<Vec<u8>>)
        ensures
            out matches Some(signature) ==> signature@.subrange(64, 97) == self.spec_public(),
    {
        match self.sign(message) {
            Some(signature) => Some(signature.to_raw_vec()),
            None => None,
        }
    }

    fn verify_bytes(signature: &[u8], message: &[u8], public: &[u8]) -> (ok: bool) {
        Pair::verify_weak(signature, message, public)
    }
}

/// Two pairs of one seed are the same pair: the seed decides the public key.
pub proof fn lemma_seed_decides_pair(a: Pair, b: Pair)
    requires
        a.wf(),
        b.wf(),
        a.spec_secret() == b.spec_secret(),
    ensures
        a.spec_public() == b.spec_public(),
        a == b,
{
    assert(a.secret@ =~= b.secret@);
    assert(a.public@ =~= b.public@);
    assert(a.secret == b.secret);
    assert(a.public == b.public);
}

/// A signature that verifies no longer does once a byte of the key that it
/// carries is changed.
pub proof fn lemma_changed_key_byte_is_refused(
    signature: Seq<u8>,
    changed: Seq<u8>,
    message: Seq<u8>,
    public: Seq<u8>,
    at: int,
)
    requires
        spec_verify(signature, message, public),
        changed.len() == signature.len(),
        64 <= at < 97,
        changed[at] != signature[at],
    ensures
        !spec_verify(changed, message, public),
{
    assert(signature.subrange(64, 97)[at - 64] == signature[at]);
    assert(changed.subrange(64, 97)[at - 64] == changed[at]);
}

/// Two keys under which one signature verifies are the same key: the
/// signature names its signer.
pub proof fn lemma_signature_names_its_signer(
    signature: Seq<u8>,
    message_a: Seq<u8>,
    public_a: Seq<u8>,
    message_b: Seq<u8>,
    public_b: Seq<u8>,
)
    requires
        spec_verify(signature, message_a, public_a),
        spec_verify(signature, message_b, public_b),
    ensures
        public_a == public_b,
{
}

} // verus!
