use crypto_identity::encoding::BASE58_MAX_TEXT;
use crypto_identity::sm2::Pair;
use crypto_identity::ss58::checksum;
use crypto_identity::ss58::checksum_len;
use crypto_identity::ss58::decode;
use crypto_identity::ss58::decode_frame;
use crypto_identity::ss58::encode;
use crypto_identity::ss58::frame_has_key_len;
use crypto_identity::ss58::key_len_is_registered;
use crypto_identity::ss58::key_len_of_frame;
use crypto_identity::ss58::text_is_base58;
use crypto_identity::ss58::version_is_registered;
use crypto_identity::ss58::PublicError;
use crypto_identity::ss58::DEFAULT_VERSION;

const ALPHABET: &str = "123456789ABCDEFGHJKLMNPQRSTUVWXYZabcdefghijkmnopqrstuvwxyz";
const ADDRESS_OF_ONES: &str = "KW7Ahjz21TJuvtP9ccGgQXtGGnHxCm5fcd1aBNEARgfpv9s8m";

fn public_of_ones() -> Vec<u8> {
    Pair::from_seed(&[1u8; 32]).unwrap().public().to_raw_vec()
}

#[test]
fn encode_gives_the_pinned_text() {
    let key = public_of_ones();
    assert_eq!(encode(42, &key).unwrap(), ADDRESS_OF_ONES);
    assert_eq!(encode(DEFAULT_VERSION, &key).unwrap(), ADDRESS_OF_ONES);
    assert_eq!(encode(0, &key).unwrap(), "1GpNWzX3B7D3bFRrBow2WroMoAQaeZXGTq6UPDK9JrY8BsWt");
    let key32: Vec<u8> = (0u8..32).collect();
    assert_eq!(encode(2, &key32).unwrap(), "CaKpMFfFVXQrRRNDtMxiiPeiYBCYikNzrBmpuZUvmdQKrUR");
    assert_eq!(
        encode(42, &[0u8; 32]).unwrap(),
        "5C4hrfjw9DjXZTzV3MwzrrAr9P1MJhSrvWGWqi1eSuyUpnhM"
    );
    assert_eq!(encode(0, &[0u8; 33]).unwrap(), "1111111111111111111111111111111111L55");
}

#[test]
fn decode_gives_back_what_encode_took() {
    for seed in [[1u8; 32], [2u8; 32], [0x7fu8; 32]] {
        let key = Pair::from_seed(&seed).unwrap().public().to_raw_vec();
        for version in [0u8, 2, 5, 6, 7, 8, 10, 16, 18, 20, 32, 36, 42] {
            let text = encode(version, &key).unwrap();
            assert_eq!(decode(&text), Ok((version, key.clone())));
        }
    }
    let key32: Vec<u8> = (100u8..132).collect();
    assert_eq!(decode(&encode(42, &key32).unwrap()), Ok((42, key32)));
    assert_eq!(decode(&encode(0, &[0u8; 33]).unwrap()), Ok((0, vec![0u8; 33])));
    assert_eq!(decode(ADDRESS_OF_ONES), Ok((42, public_of_ones())));
}

#[test]
fn encode_refuses_unregistered_versions_and_lengths() {
    let key = public_of_ones();
    assert_eq!(encode(1, &key), Err(PublicError::UnknownVersion));
    assert_eq!(encode(255, &key), Err(PublicError::UnknownVersion));
    assert_eq!(encode(42, &key[..31]), Err(PublicError::BadLength));
    assert_eq!(encode(42, &[0u8; 34]), Err(PublicError::BadLength));
    assert_eq!(encode(42, &[]), Err(PublicError::BadLength));
    assert_eq!(encode(1, &[]), Err(PublicError::BadLength));
}

#[test]
fn empty_text_is_refused() {
    assert_eq!(decode(""), Err(PublicError::BadLength));
}

#[test]
fn text_outside_the_alphabet_is_bad_base58() {
    assert_eq!(decode("0"), Err(PublicError::BadBase58));
    assert_eq!(decode("O"), Err(PublicError::BadBase58));
    assert_eq!(decode("I"), Err(PublicError::BadBase58));
    assert_eq!(decode("l"), Err(PublicError::BadBase58));
    assert_eq!(decode(" "), Err(PublicError::BadBase58));
    assert_eq!(decode("\u{e4}"), Err(PublicError::BadBase58));
    let mut text = String::from(ADDRESS_OF_ONES);
    text.push('0');
    assert_eq!(decode(&text), Err(PublicError::BadBase58));
    let long = "0".repeat(500);
    assert_eq!(decode(&long), Err(PublicError::BadBase58));
    assert!(text_is_base58(ALPHABET));
    assert!(text_is_base58(""));
    assert!(!text_is_base58("0"));
    assert!(!text_is_base58("\u{20ac}"));
}

#[test]
fn text_of_no_registered_length_is_bad_length() {
    assert_eq!(decode("1"), Err(PublicError::BadLength));
    assert_eq!(decode("z"), Err(PublicError::BadLength));
    assert_eq!(decode(&"1".repeat(34)), Err(PublicError::BadLength));
    assert_eq!(decode(&"1".repeat(37)), Err(PublicError::BadLength));
    assert_eq!(decode(&"1".repeat(BASE58_MAX_TEXT)), Err(PublicError::BadLength));
    assert_eq!(decode(&"1".repeat(BASE58_MAX_TEXT + 1)), Err(PublicError::BadLength));
    assert_eq!(decode(&"z".repeat(1000)), Err(PublicError::BadLength));
    assert_eq!(decode(&format!("{}z", ADDRESS_OF_ONES)), Err(PublicError::BadLength));
    assert_eq!(decode(&format!("1{}", ADDRESS_OF_ONES)), Err(PublicError::BadLength));
}

#[test]
fn frame_with_wrong_checksum_is_refused() {
    assert_eq!(decode(&"1".repeat(35)), Err(PublicError::InvalidChecksum));
    assert_eq!(decode(&"1".repeat(36)), Err(PublicError::InvalidChecksum));
    let mut frame = vec![42u8];
    frame.extend_from_slice(&public_of_ones());
    let sum = checksum(42, &public_of_ones()).unwrap();
    assert_eq!(sum.len(), 2);
    frame.extend_from_slice(&sum);
    assert_eq!(decode_frame(&frame), Ok((42, public_of_ones())));
    frame[35] ^= 1;
    assert_eq!(decode_frame(&frame), Err(PublicError::InvalidChecksum));
    frame[35] ^= 1;
    frame[34] ^= 0x80;
    assert_eq!(decode_frame(&frame), Err(PublicError::InvalidChecksum));
    frame[34] ^= 0x80;
    frame[7] ^= 4;
    assert_eq!(decode_frame(&frame), Err(PublicError::InvalidChecksum));
    frame[7] ^= 4;
    frame[0] = 43;
    assert_eq!(decode_frame(&frame), Err(PublicError::InvalidChecksum));
}

#[test]
fn frame_of_unregistered_version_is_refused() {
    let mut frame = vec![43u8];
    frame.extend_from_slice(&public_of_ones());
    let sum = checksum(43, &public_of_ones()).unwrap();
    frame.extend_from_slice(&sum);
    assert_eq!(decode_frame(&frame), Err(PublicError::UnknownVersion));
    assert_eq!(decode_frame(&frame[..34]), Err(PublicError::BadLength));
    assert_eq!(decode_frame(&[]), Err(PublicError::BadLength));
    assert_eq!(decode_frame(&[42, 0]), Err(PublicError::BadLength));
}

#[test]
fn changing_one_character_never_gives_another_key() {
    let chars: Vec<char> = ADDRESS_OF_ONES.chars().collect();
    for at in 0..chars.len() {
        for other in ALPHABET.chars() {
            if other == chars[at] {
                continue;
            }
            let mut changed = chars.clone();
            changed[at] = other;
            let text: String = changed.into_iter().collect();
            let outcome = decode(&text);
            assert!(
                matches!(
                    outcome,
                    Err(PublicError::InvalidChecksum)
                        | Err(PublicError::BadLength)
                        | Err(PublicError::BadBase58)
                ),
                "{} gave {:?}",
                text,
                outcome
            );
        }
        let mut changed = chars.clone();
        changed[at] = '0';
        let text: String = changed.into_iter().collect();
        assert_eq!(decode(&text), Err(PublicError::BadBase58));
    }
}

#[test]
fn checksum_is_the_start_of_the_prefixed_digest() {
    assert_eq!(checksum(42, &[0u8; 32]).map(hex::encode), Some(String::from("a600")));
    assert_eq!(checksum(42, &[0u8; 33]).map(hex::encode), Some(String::from("3326")));
    assert_ne!(checksum(42, &[0u8; 32]), checksum(0, &[0u8; 32]));
    assert_ne!(checksum(42, &[0u8; 32]), checksum(42, &[0u8; 33]));
}

#[test]
fn checksum_length_goes_by_the_size_class_of_the_key() {
    assert_eq!(checksum_len(32), Some(2));
    assert_eq!(checksum_len(33), Some(2));
    for len in [0usize, 1, 2, 4, 8, 31, 34, 64, 65] {
        assert_eq!(checksum_len(len), None);
        assert_eq!(checksum(42, &vec![0u8; len]), None);
        assert!(!key_len_is_registered(len));
    }
    assert_eq!(key_len_of_frame(35), Some(32));
    assert_eq!(key_len_of_frame(36), Some(33));
    for len in [0usize, 1, 2, 3, 34, 37, 67, 68] {
        assert_eq!(key_len_of_frame(len), None);
    }
    assert!(frame_has_key_len(35, 32));
    assert!(frame_has_key_len(36, 33));
    assert!(!frame_has_key_len(36, 32));
    assert!(!frame_has_key_len(35, 33));
    assert!(!frame_has_key_len(37, 34));
    assert!(!frame_has_key_len(3, 0));
    assert!(!frame_has_key_len(0, usize::MAX));
}

#[test]
fn registry_knows_its_versions_and_lengths() {
    for version in [0u8, 2, 5, 6, 7, 8, 10, 16, 18, 20, 32, 36, 42] {
        assert!(version_is_registered(version));
    }
    for version in [1u8, 3, 4, 9, 11, 41, 43, 64, 128, 255] {
        assert!(!version_is_registered(version));
    }
    assert!(key_len_is_registered(32));
    assert!(key_len_is_registered(33));
    assert!(!key_len_is_registered(0));
    assert!(!key_len_is_registered(31));
    assert!(!key_len_is_registered(34));
    assert!(!key_len_is_registered(64));
}
