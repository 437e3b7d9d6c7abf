use aes::Aes256;
use base64::engine::general_purpose::STANDARD;
use base64::Engine;
use ctr::cipher::{KeyIvInit, StreamCipher};
use nekohash::utils::{
    combine_hashes, constant_time_compare, decrypt_data, derive_key, encrypt_data,
    encrypt_with_iv, from_hex, generate_key, generate_salt, key_from_base64, key_to_base64,
    rotate_key, stretch_key, time_based_key, time_based_key_at, to_hex,
};
use nekohash::{KawaiiHash, NekoError, NekoHash};

#[test]
fn test_constant_time_compare() {
    let a = vec![1, 2, 3, 4];
    let b = vec![1, 2, 3, 4];
    let c = vec![1, 2, 3, 5];

    assert!(constant_time_compare(&a, &b));
    assert!(!constant_time_compare(&a, &c));
}

#[test]
fn test_key_stretching() {
    let data = b"password123";
    let result = stretch_key(data, 1000, 32).unwrap();
    assert_eq!(result.len(), 32);

    assert!(stretch_key(data, 0, 32).is_err());
    assert!(stretch_key(data, 1000, 0).is_err());
}

#[test]
fn test_key_derivation() {
    let password = b"password123";
    let salt = generate_salt();
    let key1 = derive_key(password, &salt).unwrap();
    let key2 = derive_key(password, &salt).unwrap();

    assert_eq!(key1.len(), 32);
    assert_eq!(key1, key2);

    assert!(derive_key(&[], &salt).is_err());
    assert!(derive_key(password, &[]).is_err());
}

#[test]
fn test_time_based_key() {
    let seed = b"test_seed";
    let key1 = time_based_key(seed, 30).unwrap();
    let _key2 = time_based_key(seed, 30).unwrap();

    assert_eq!(key1.len(), 32);
    assert!(time_based_key(&[], 30).is_err());
    assert!(time_based_key(seed, 0).is_err());
}

#[test]
fn test_key_rotation() {
    let key = vec![0b10101010, 0b11110000];
    let rotated = rotate_key(&key, 4);
    assert_eq!(rotated, vec![0b10101111, 0b00001010]);
}

#[test]
fn test_hex_conversion() {
    let original = vec![0xDE, 0xAD, 0xBE, 0xEF];
    let hex = to_hex(&original);
    let decoded = from_hex(&hex).unwrap();
    assert_eq!(original, decoded);

    assert!(from_hex("invalid").is_err());
    assert!(from_hex("deadbeef1").is_err());
}

#[test]
fn test_encryption() {
    let data = b"test data";
    let key = generate_key();

    let encrypted = encrypt_data(data, Some(&key)).unwrap();
    let decrypted = decrypt_data(&encrypted, &key).unwrap();

    assert_eq!(data.to_vec(), decrypted);

    let wrong_key = generate_key();
    let wrong_decrypted = decrypt_data(&encrypted, &wrong_key);
    assert!(wrong_decrypted.is_ok() && wrong_decrypted.unwrap() != data);
}

#[test]
fn hex_exact_text_and_round_trips() {
    assert_eq!(to_hex(&[0xDE, 0xAD, 0xBE, 0xEF]), "deadbeef");
    assert_eq!(to_hex(&[0x00, 0x0f, 0xa0]), "000fa0");
    assert_eq!(to_hex(&[]), "");
    for bytes in [vec![], vec![0u8], vec![255u8, 1, 16, 127], (0u8..=255).collect::<Vec<u8>>()] {
        assert_eq!(from_hex(&to_hex(&bytes)).unwrap(), bytes);
    }
    assert_eq!(from_hex("DEADbeef").unwrap(), vec![0xDE, 0xAD, 0xBE, 0xEF]);
    assert_eq!(from_hex("").unwrap(), Vec::<u8>::new());
}

#[test]
fn hex_rejects_malformed_text() {
    assert!(matches!(from_hex("abc"), Err(NekoError::EncodingError(_))));
    assert!(matches!(from_hex("zz"), Err(NekoError::EncodingError(_))));
    assert!(matches!(from_hex("+f"), Err(NekoError::EncodingError(_))));
    assert!(matches!(from_hex("é0"), Err(NekoError::EncodingError(_))));
    assert!(matches!(from_hex("0g"), Err(NekoError::EncodingError(_))));
}

#[test]
fn compare_covers_lengths_and_positions() {
    assert!(constant_time_compare(&[], &[]));
    assert!(!constant_time_compare(&[1, 2, 3], &[1, 2]));
    assert!(!constant_time_compare(&[9, 2, 3], &[1, 2, 3]));
    let a: Vec<u8> = (0u8..200).collect();
    assert!(constant_time_compare(&a, &a.clone()));
}

#[test]
fn combine_of_none_and_one() {
    assert_eq!(combine_hashes(&[]), Vec::<u8>::new());
    let h = vec![0x01u8, 0x80, 0xFF];
    let once = combine_hashes(&[h.clone()]);
    assert_eq!(once, vec![0x08, 0x04, 0xFF]);
    assert_eq!(once, combine_hashes(&[h]));
}

#[test]
fn combine_of_several_follows_the_rule() {
    let a = vec![1u8, 2, 3];
    let b = vec![4u8];
    // Length three; byte 0 sees a then b, bytes 1 and 2 only a.
    let r0 = (1u8.rotate_left(3) ^ 4).rotate_left(3);
    assert_eq!(
        combine_hashes(&[a.clone(), b.clone()]),
        vec![r0, 2u8.rotate_left(3), 3u8.rotate_left(3)]
    );
    let r0_swapped = (4u8.rotate_left(3) ^ 1).rotate_left(3);
    assert_eq!(combine_hashes(&[b, a])[0], r0_swapped);
    assert_eq!(combine_hashes(&[vec![], vec![]]), Vec::<u8>::new());
}

#[test]
fn rotation_edge_cases() {
    let key = vec![1u8, 2, 3, 4];
    assert_eq!(rotate_key(&key, 0), key);
    assert_eq!(rotate_key(&key, 32), key);
    assert_eq!(rotate_key(&key, 8), vec![2, 3, 4, 1]);
    assert_eq!(rotate_key(&key, 40), vec![2, 3, 4, 1]);
    assert_eq!(rotate_key(&[], 5), Vec::<u8>::new());
    // A whole byte and one bit: bytes [2, 3, 4, 1], then each shifted by one.
    assert_eq!(rotate_key(&key, 9), vec![4, 6, 8, 2]);
    assert_eq!(rotate_key(&[0x80], 1), vec![0x01]);
}

#[test]
fn encryption_round_trips_and_uses_fresh_ivs() {
    let key = [3u8; 32];
    for data in [Vec::new(), b"x".to_vec(), vec![0xAB; 1000]] {
        let env = encrypt_data(&data, Some(&key)).unwrap();
        assert_eq!(decrypt_data(&env, &key).unwrap(), data);
    }
    let first = encrypt_data(b"same", Some(&key)).unwrap();
    let second = encrypt_data(b"same", Some(&key)).unwrap();
    assert_ne!(first, second);
}

#[test]
fn encryption_errors_by_kind() {
    assert!(matches!(encrypt_data(b"d", Some(&[0u8; 31])), Err(NekoError::KeyError(_))));
    assert!(matches!(encrypt_data(b"d", Some(&[0u8; 33])), Err(NekoError::KeyError(_))));
    assert!(matches!(decrypt_data(b"AAAA", &[0u8; 16]), Err(NekoError::KeyError(_))));
    assert!(matches!(decrypt_data(b"not base64!", &[0u8; 32]), Err(NekoError::EncodingError(_))));
    let short = STANDARD.encode([1u8; 10]);
    assert!(matches!(decrypt_data(short.as_bytes(), &[0u8; 32]), Err(NekoError::CryptoError(_))));
    assert!(encrypt_data(b"d", None).is_ok());
}

#[test]
fn envelope_is_base64_of_iv_and_ciphertext() {
    let key = [5u8; 32];
    let iv = [6u8; 16];
    let data = b"counter mode";
    let env = encrypt_with_iv(data, &key, &iv);
    let mut ciphertext = data.to_vec();
    ctr::Ctr64BE::<Aes256>::new((&key).into(), (&iv).into()).apply_keystream(&mut ciphertext);
    assert_ne!(ciphertext, data.to_vec());
    let mut framed = iv.to_vec();
    framed.extend_from_slice(&ciphertext);
    assert_eq!(env, STANDARD.encode(&framed).into_bytes());
    assert_eq!(decrypt_data(&env, &key).unwrap(), data.to_vec());
}

#[test]
fn key_base64_codec() {
    assert_eq!(key_to_base64(b"hello"), "aGVsbG8=");
    assert_eq!(key_from_base64("aGVsbG8=").unwrap(), b"hello".to_vec());
    let key = generate_key();
    assert_eq!(key_from_base64(&key_to_base64(&key)).unwrap(), key);
    assert!(matches!(key_from_base64("a"), Err(NekoError::EncodingError(_))));
}

#[test]
fn generated_material_has_its_size() {
    let k1 = generate_key();
    let k2 = generate_key();
    assert_eq!(k1.len(), 32);
    assert_ne!(k1, k2);
    assert_eq!(generate_salt().len(), 16);
}

#[test]
fn stretch_is_repeated_hashing() {
    let data = b"abc";
    let hasher = KawaiiHash::with_size(20);
    let twice = hasher.hash(&hasher.hash(data));
    assert_eq!(stretch_key(data, 2, 20).unwrap(), twice);
    assert!(matches!(stretch_key(data, 0, 5), Err(NekoError::InvalidInput(_))));
    assert!(matches!(stretch_key(data, 5, 0), Err(NekoError::InvalidInput(_))));
    assert!(matches!(stretch_key(&[], 0, 0), Err(NekoError::InvalidInput(_))));
}

#[test]
fn derive_key_concatenates_password_and_salt() {
    let a = derive_key(b"pass", b"word").unwrap();
    let b = stretch_key(b"password", 10000, 32).unwrap();
    assert_eq!(a, b);
    assert!(matches!(derive_key(b"", b"salt"), Err(NekoError::InvalidInput(_))));
    assert!(matches!(derive_key(b"pw", b""), Err(NekoError::InvalidInput(_))));
}

#[test]
fn time_slot_key_is_fixed_within_a_window() {
    let salt = [1u8; 16];
    let a = time_based_key_at(b"seed", 30, 60, &salt).unwrap();
    let b = time_based_key_at(b"seed", 30, 89, &salt).unwrap();
    let c = time_based_key_at(b"seed", 30, 90, &salt).unwrap();
    assert_eq!(a, b);
    assert_ne!(a, c);
    let mut input = b"seed".to_vec();
    input.extend_from_slice(&2u64.to_le_bytes());
    assert_eq!(a, derive_key(&input, &salt).unwrap());
    assert!(matches!(time_based_key_at(b"", 30, 0, &salt), Err(NekoError::InvalidInput(_))));
    assert!(matches!(time_based_key_at(b"s", 0, 0, &salt), Err(NekoError::InvalidInput(_))));
    assert!(matches!(time_based_key_at(b"s", 1, 0, &[]), Err(NekoError::InvalidInput(_))));
}
