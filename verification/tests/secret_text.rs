use crypto_identity::error::SecretStringError;
use crypto_identity::junction::index_code;
use crypto_identity::junction::parse_index;
use crypto_identity::junction::DeriveJunction;
use crypto_identity::scale::u64_le_bytes;
use crypto_identity::secret::pad_with_spaces;
use crypto_identity::suri::find_slash;
use crypto_identity::suri::parse;
use crypto_identity::suri::parse_bytes;
use crypto_identity::suri::SecretUri;

fn code_of(index: u64) -> [u8; 32] {
    let mut code = [0u8; 32];
    code[..8].copy_from_slice(&index.to_le_bytes());
    code
}

#[test]
fn hard_path_of_two_indices() {
    let uri = parse("correct horse battery staple//1//2").unwrap();
    assert_eq!(uri.phrase, b"correct horse battery staple".to_vec());
    assert_eq!(
        uri.junctions,
        vec![DeriveJunction::Hard(code_of(1)), DeriveJunction::Hard(code_of(2))]
    );
    assert_eq!(uri.junctions, vec![DeriveJunction::hard(1), DeriveJunction::hard(2)]);
    assert_eq!(uri.password, None);
}

#[test]
fn soft_junction_and_password() {
    let uri = parse("correct horse battery staple/1///hunter2").unwrap();
    assert_eq!(uri.phrase, b"correct horse battery staple".to_vec());
    assert_eq!(uri.junctions, vec![DeriveJunction::Soft(code_of(1))]);
    assert_eq!(uri.junctions, vec![DeriveJunction::soft(1)]);
    assert_eq!(uri.password, Some(b"hunter2".to_vec()));
}

#[test]
fn secret_alone() {
    let uri = parse("correct horse battery staple").unwrap();
    assert_eq!(
        uri,
        SecretUri {
            phrase: b"correct horse battery staple".to_vec(),
            junctions: vec![],
            password: None,
        }
    );
    let empty = parse("").unwrap();
    assert_eq!(empty, SecretUri { phrase: vec![], junctions: vec![], password: None });
}

#[test]
fn junctions_keep_the_order_written() {
    let uri = parse("secret/a//b/3//4").unwrap();
    assert_eq!(
        uri.junctions,
        vec![
            DeriveJunction::from_code(b"a", false),
            DeriveJunction::from_code(b"b", true),
            DeriveJunction::soft(3),
            DeriveJunction::hard(4),
        ]
    );
    assert!(uri.junctions[0].is_soft());
    assert!(uri.junctions[1].is_hard());
    assert_eq!(uri.password, None);
}

#[test]
fn password_is_everything_behind_three_slashes() {
    let uri = parse("secret///pass/word//x").unwrap();
    assert_eq!(uri.junctions, vec![]);
    assert_eq!(uri.password, Some(b"pass/word//x".to_vec()));
    let uri = parse("secret//1///").unwrap();
    assert_eq!(uri.junctions, vec![DeriveJunction::hard(1)]);
    assert_eq!(uri.password, Some(vec![]));
    let uri = parse("secret////x").unwrap();
    assert_eq!(uri.password, Some(b"/x".to_vec()));
    let uri = parse("///only").unwrap();
    assert_eq!(uri.phrase, Vec::<u8>::new());
    assert_eq!(uri.password, Some(b"only".to_vec()));
}

#[test]
fn slashes_without_a_code_are_a_format_error() {
    assert_eq!(parse("secret/"), Err(SecretStringError::InvalidFormat));
    assert_eq!(parse("secret//"), Err(SecretStringError::InvalidFormat));
    assert_eq!(parse("secret//1/"), Err(SecretStringError::InvalidFormat));
    assert_eq!(parse("secret/1//"), Err(SecretStringError::InvalidFormat));
    assert_eq!(parse("/"), Err(SecretStringError::InvalidFormat));
    assert_eq!(parse("//"), Err(SecretStringError::InvalidFormat));
    assert_eq!(parse_bytes(b"secret//"), Err(SecretStringError::InvalidFormat));
}

#[test]
fn text_outside_ascii_is_kept_byte_for_byte() {
    let uri = parse("geheim\u{e4}//\u{fc}ber///p\u{e4}ss").unwrap();
    assert_eq!(uri.phrase, "geheim\u{e4}".as_bytes().to_vec());
    assert_eq!(uri.junctions, vec![DeriveJunction::from_code("\u{fc}ber".as_bytes(), true)]);
    assert_eq!(uri.password, Some("p\u{e4}ss".as_bytes().to_vec()));
}

#[test]
fn find_slash_stops_at_the_first_slash() {
    assert_eq!(find_slash(b"ab/cd/e", 0), 2);
    assert_eq!(find_slash(b"ab/cd/e", 2), 2);
    assert_eq!(find_slash(b"ab/cd/e", 3), 5);
    assert_eq!(find_slash(b"ab/cd/e", 6), 7);
    assert_eq!(find_slash(b"ab/cd/e", 7), 7);
    assert_eq!(find_slash(b"", 0), 0);
}

#[test]
fn index_codes_are_little_endian_and_zero_padded() {
    assert_eq!(index_code(1), code_of(1));
    assert_eq!(index_code(0), [0u8; 32]);
    assert_eq!(index_code(0x0102030405060708), code_of(0x0102030405060708));
    assert_eq!(&index_code(0x0102030405060708)[..9], &[8, 7, 6, 5, 4, 3, 2, 1, 0]);
    assert_eq!(index_code(u64::MAX), code_of(u64::MAX));
    assert_eq!(u64_le_bytes(0x0102030405060708), [8, 7, 6, 5, 4, 3, 2, 1]);
    assert_eq!(u64_le_bytes(u64::MAX), [0xff; 8]);
}

#[test]
fn decimal_codes_are_indices() {
    assert_eq!(parse_index(b"0"), Some(0));
    assert_eq!(parse_index(b"1"), Some(1));
    assert_eq!(parse_index(b"007"), Some(7));
    assert_eq!(parse_index(b"18446744073709551615"), Some(u64::MAX));
    assert_eq!(parse_index(b"18446744073709551616"), None);
    assert_eq!(parse_index(b"99999999999999999999999"), None);
    assert_eq!(parse_index(b""), None);
    assert_eq!(parse_index(b"12a"), None);
    assert_eq!(parse_index(b"+1"), None);
    assert_eq!(parse_index(b"-1"), None);
    assert_eq!(parse_index(b" 1"), None);
}

#[test]
fn other_codes_are_hashed_with_their_length() {
    let alice = DeriveJunction::from_code(b"Alice", true);
    assert_eq!(
        hex::encode(alice.unwrap_inner()),
        "0c7146b67bdcbbea73a79afce5e6201fd46878ff2ab2d6882ba1f285f6396aa0"
    );
    assert!(alice.is_hard());
    let soft = DeriveJunction::from_code(b"Alice", false);
    assert_eq!(soft.unwrap_inner(), alice.unwrap_inner());
    assert!(soft.is_soft());
    assert_eq!(soft.harden(), alice);
    assert_eq!(alice.soften(), soft);
    let too_big = DeriveJunction::from_code(b"18446744073709551616", true);
    assert_eq!(
        hex::encode(too_big.unwrap_inner()),
        "6f10368515402de000b972a7e7f544e3c5154bb3273e8a45e3c8baaae810f5de"
    );
    let largest = DeriveJunction::from_code(b"18446744073709551615", true);
    assert_eq!(largest, DeriveJunction::hard(u64::MAX));
}

#[test]
fn long_codes_get_a_wider_length_prefix() {
    let code = vec![b'x'; 100];
    let junction = DeriveJunction::from_code(&code, true);
    assert_eq!(
        hex::encode(junction.unwrap_inner()),
        "1b87f546690d933b7a06c89587c1eb6cf62c98b4caacb269f1cee2da6f133c1a"
    );
    let code = vec![b'y'; 20000];
    let junction = DeriveJunction::from_code(&code, false);
    assert_eq!(
        hex::encode(junction.unwrap_inner()),
        "469cbe616e1627979c5c2b22532ecddef4523e3288ddca8d203d2fc30f7b810a"
    );
}

#[test]
fn short_text_is_filled_up_with_spaces() {
    assert_eq!(pad_with_spaces(b"ab", 4), b"ab  ".to_vec());
    assert_eq!(pad_with_spaces(b"abcdef", 4), b"abcd".to_vec());
    assert_eq!(pad_with_spaces(b"abcd", 4), b"abcd".to_vec());
    assert_eq!(pad_with_spaces(b"", 3), b"   ".to_vec());
    assert_eq!(pad_with_spaces(b"abc", 0), Vec::<u8>::new());
}
