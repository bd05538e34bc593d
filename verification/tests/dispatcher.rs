use crypto_identity::dispatch::derive_public;
use crypto_identity::dispatch::encode_address;
use crypto_identity::dispatch::generate;
use crypto_identity::dispatch::public_from_seed;
use crypto_identity::dispatch::public_from_suri;
use crypto_identity::dispatch::public_len;
use crypto_identity::dispatch::scheme_of_tag;
use crypto_identity::dispatch::seed_len;
use crypto_identity::dispatch::sign;
use crypto_identity::dispatch::signature_len;
use crypto_identity::dispatch::signature_text;
use crypto_identity::dispatch::supports_soft_derivation;
use crypto_identity::dispatch::tag_of_scheme;
use crypto_identity::dispatch::verify;
use crypto_identity::dispatch::CryptoScheme;
use crypto_identity::dispatch::SignError;
use crypto_identity::error::SecretStringError;
use crypto_identity::junction::DeriveJunction;
use crypto_identity::sign_cmd::SignCmd;
use crypto_identity::ss58::decode;
use crypto_identity::ss58::PublicError;

const PUBLIC_OF_ONES: &str = "02bba87803d5e12788b07a912ae5368e7b2720bd19b93920bdbf2e9b6286da9c4e";

#[test]
fn scheme_constants() {
    assert_eq!(seed_len(CryptoScheme::Sm2), 32);
    assert_eq!(public_len(CryptoScheme::Sm2), 33);
    assert_eq!(signature_len(CryptoScheme::Sm2), 97);
    assert!(!supports_soft_derivation(CryptoScheme::Sm2));
}

#[test]
fn public_key_from_seed_by_scheme() {
    let public = public_from_seed(CryptoScheme::Sm2, &[1u8; 32]).unwrap();
    assert_eq!(hex::encode(&public), PUBLIC_OF_ONES);
    assert_eq!(
        public_from_seed(CryptoScheme::Sm2, &[1u8; 16]),
        Err(SecretStringError::InvalidSeedLength)
    );
    assert_eq!(
        public_from_seed(CryptoScheme::Sm2, &[1u8; 64]),
        Err(SecretStringError::InvalidSeedLength)
    );
}

#[test]
fn public_key_from_secret_text_by_scheme() {
    let seed_text = format!("0x{}", "01".repeat(32));
    let public = public_from_suri(CryptoScheme::Sm2, &seed_text, None).unwrap();
    assert_eq!(hex::encode(&public), PUBLIC_OF_ONES);
    let derived = public_from_suri(CryptoScheme::Sm2, &format!("{}//1", seed_text), None).unwrap();
    assert_eq!(
        hex::encode(&derived),
        "026bf4708bc54b3aff9444769490c7b21959e3b577adce56734f4147a91369a8c5"
    );
    assert_eq!(
        public_from_suri(CryptoScheme::Sm2, &format!("{}/1", seed_text), None),
        Err(SecretStringError::InvalidPath)
    );
    assert_eq!(
        public_from_suri(CryptoScheme::Sm2, "not a phrase", Some("x")),
        Err(SecretStringError::InvalidPhrase)
    );
}

#[test]
fn address_of_a_public_key_by_scheme() {
    let public = public_from_seed(CryptoScheme::Sm2, &[1u8; 32]).unwrap();
    let text = encode_address(CryptoScheme::Sm2, &public, 42).unwrap();
    assert_eq!(text, "KW7Ahjz21TJuvtP9ccGgQXtGGnHxCm5fcd1aBNEARgfpv9s8m");
    assert_eq!(decode(&text), Ok((42, public.clone())));
    assert_eq!(encode_address(CryptoScheme::Sm2, &public, 1), Err(PublicError::UnknownVersion));
    assert_eq!(encode_address(CryptoScheme::Sm2, &[0u8; 32], 42), Err(PublicError::BadLength));
    assert_eq!(encode_address(CryptoScheme::Sm2, &public[..10], 42), Err(PublicError::BadLength));
}

#[test]
fn sign_reports_a_secret_that_stands_for_no_pair() {
    assert_eq!(
        sign(CryptoScheme::Sm2, "0x01//", "", b"message"),
        Err(SignError::Secret(SecretStringError::InvalidFormat))
    );
    assert_eq!(
        sign(CryptoScheme::Sm2, "not a phrase", "", b"message"),
        Err(SignError::Secret(SecretStringError::InvalidPhrase))
    );
    assert_eq!(
        sign(CryptoScheme::Sm2, "0x0101", "", b"message"),
        Err(SignError::Secret(SecretStringError::InvalidSeedLength))
    );
    let seed_text = format!("0x{}/soft", "01".repeat(32));
    assert_eq!(
        sign(CryptoScheme::Sm2, &seed_text, "", b"message"),
        Err(SignError::Secret(SecretStringError::InvalidPath))
    );
}

#[test]
fn verify_by_scheme_is_false_for_what_is_no_signature() {
    let public = public_from_seed(CryptoScheme::Sm2, &[1u8; 32]).unwrap();
    assert!(!verify(CryptoScheme::Sm2, &[0u8; 97], b"message", &public));
    assert!(!verify(CryptoScheme::Sm2, &[0u8; 64], b"message", &public));
    assert!(!verify(CryptoScheme::Sm2, &[], b"message", &public));
    assert!(!verify(CryptoScheme::Sm2, &[0u8; 97], b"message", &public[..32]));
    assert!(!verify(CryptoScheme::Sm2, &[0xffu8; 97], b"", &[0u8; 33]));
}

#[test]
fn signature_text_is_lowercase_and_two_digits_a_byte() {
    assert_eq!(signature_text(&[]), "");
    assert_eq!(signature_text(&[0x00, 0x0f, 0xa0, 0xff, 0x12]), "000fa0ff12");
    let all: Vec<u8> = (0u8..=255).collect();
    let text = signature_text(&all);
    assert_eq!(text.len(), 512);
    assert_eq!(&text[..20], "00010203040506070809");
    assert_eq!(&text[20..32], "0a0b0c0d0e0f");
    assert_eq!(&text[508..], "feff");
    assert_eq!(text, text.to_lowercase());
}

#[test]
fn sign_command_signs_under_its_scheme() {
    let command = SignCmd {
        suri: Some(String::from("0x01")),
        message: Some(String::from("aa")),
        hex: true,
        crypto_scheme: CryptoScheme::Sm2,
    };
    assert_eq!(
        command.signature("0x01", "", &[0xaa]),
        Err(SignError::Secret(SecretStringError::InvalidSeedLength))
    );
    assert_eq!(
        command.signature("secret//", "", &[0xaa]),
        Err(SignError::Secret(SecretStringError::InvalidFormat))
    );
}

#[test]
fn schemes_are_named_by_their_tags() {
    assert_eq!(scheme_of_tag("sm2"), Some(CryptoScheme::Sm2));
    assert_eq!(scheme_of_tag("Sm2"), None);
    assert_eq!(scheme_of_tag("sm"), None);
    assert_eq!(scheme_of_tag("sm22"), None);
    assert_eq!(scheme_of_tag(""), None);
    assert_eq!(scheme_of_tag("ed25519"), None);
    assert_eq!(tag_of_scheme(CryptoScheme::Sm2), "sm2");
    assert_eq!(scheme_of_tag(tag_of_scheme(CryptoScheme::Sm2)), Some(CryptoScheme::Sm2));
}

#[test]
fn derived_public_key_by_scheme() {
    let path = [DeriveJunction::hard(1), DeriveJunction::hard(2)];
    let public = derive_public(CryptoScheme::Sm2, &[1u8; 32], &path).unwrap();
    assert_eq!(
        hex::encode(&public),
        "027b48a0d4a2aa8ea9484807710bf232e2a321cccb3fb4b029d7c55b60af5c436a"
    );
    assert_eq!(
        derive_public(CryptoScheme::Sm2, &[1u8; 32], &[]).unwrap(),
        public_from_seed(CryptoScheme::Sm2, &[1u8; 32]).unwrap()
    );
    assert_eq!(
        derive_public(CryptoScheme::Sm2, &[1u8; 32], &[DeriveJunction::soft(1)]),
        Err(SecretStringError::InvalidPath)
    );
    assert_eq!(
        derive_public(CryptoScheme::Sm2, &[1u8; 31], &path),
        Err(SecretStringError::InvalidSeedLength)
    );
    assert_eq!(
        derive_public(CryptoScheme::Sm2, &[0u8; 32], &[DeriveJunction::soft(1)]),
        Err(SecretStringError::InvalidSeedLength)
    );
}

#[test]
fn generated_phrase_stands_for_the_generated_key() {
    let (phrase, public) = generate(CryptoScheme::Sm2, Some("pw")).unwrap();
    assert_eq!(phrase.split(' ').count(), 12);
    assert_eq!(public.len(), 33);
    assert_eq!(public_from_suri(CryptoScheme::Sm2, &phrase, Some("pw")), Ok(public.clone()));
    assert_eq!(
        public_from_suri(CryptoScheme::Sm2, &format!("{}///pw", phrase), None),
        Ok(public.clone())
    );
    assert_ne!(public_from_suri(CryptoScheme::Sm2, &phrase, None), Ok(public));
}
