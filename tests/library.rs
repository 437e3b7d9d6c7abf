use nekohash::utils;
use nekohash::{add, KawaiiHash, MagicalHash, NekoError, NekoHash, TsundereHash};

#[test]
fn test_hash_encryption() {
    let hasher = KawaiiHash::new();
    let data = b"Hello, World!";
    let hash = hasher.hash(data);

    // Test with provided key
    let key = [42u8; 32];
    let encrypted = hasher.hash_encrypted(data, Some(&key)).unwrap();
    let decrypted = utils::decrypt_data(&encrypted, &key).unwrap();
    assert_eq!(hash, decrypted);

    // Test with random key (should fail with different key)
    let encrypted_random = hasher.hash_encrypted(data, None).unwrap();
    let wrong_key = [7u8; 32];
    let result = utils::decrypt_data(&encrypted_random, &wrong_key);
    assert!(result.is_err() || result.unwrap() != hash);
}

#[test]
fn test_add() {
    let result = add(2, 2);
    assert_eq!(result, 4);
}

#[test]
fn hash_encrypted_with_every_construction() {
    let key = [9u8; 32];
    let data = b"payload";

    let magical = MagicalHash::new();
    let env = magical.hash_encrypted(data, Some(&key)).unwrap();
    assert_eq!(utils::decrypt_data(&env, &key).unwrap(), magical.hash(data));

    let tsundere = TsundereHash::new();
    let env = tsundere.hash_encrypted(data, Some(&key)).unwrap();
    assert_eq!(utils::decrypt_data(&env, &key).unwrap(), tsundere.hash(data));
}

#[test]
fn hash_encrypted_rejects_a_short_key() {
    let hasher = MagicalHash::new();
    let result = hasher.hash_encrypted(b"x", Some(&[1u8; 31]));
    assert!(matches!(result, Err(NekoError::KeyError(_))));
}

#[test]
fn error_messages_name_their_kind() {
    let e = NekoError::InvalidInput("Seed cannot be empty".to_string());
    assert_eq!(e.message(), "Invalid input: Seed cannot be empty");
    let e = NekoError::HashError("clock".to_string());
    assert_eq!(e.message(), "Hash error: clock");
    let e = NekoError::CryptoError("short".to_string());
    assert_eq!(e.message(), "Crypto error: short");
    let e = NekoError::KeyError("len".to_string());
    assert_eq!(e.message(), "Key error: len");
    let e = NekoError::EncodingError("hex".to_string());
    assert_eq!(e.message(), "Encoding error: hex");
}
