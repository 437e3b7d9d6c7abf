use nekohash::{KawaiiHash, NekoHash};
use rand::rngs::StdRng;
use rand::{Rng, SeedableRng};

#[test]
fn test_kawaii_hash() {
    let hasher = KawaiiHash::new();
    let input = b"Hello, World!";
    let hash = hasher.hash(input);
    assert_eq!(hash.len(), 32);
}

#[test]
fn test_kawaii_hash_custom_size() {
    let hasher = KawaiiHash::with_size(16);
    let input = b"Hello, World!";
    let hash = hasher.hash(input);
    assert_eq!(hash.len(), 16);
}

#[test]
fn test_kawaii_hash_deterministic() {
    let hasher1 = KawaiiHash::with_seed(12345);
    let hasher2 = KawaiiHash::with_seed(12345);
    let input = b"Hello, World!";

    let hash1 = hasher1.hash(input);
    let hash2 = hasher2.hash(input);

    assert_eq!(hash1, hash2);
}

#[test]
fn kawaii_length_matches_output_size() {
    for size in [0usize, 1, 7, 8, 9, 31, 32, 33, 100] {
        let hasher = KawaiiHash::with_size(size);
        assert_eq!(hasher.output_size(), size);
        assert_eq!(hasher.hash(&[]).len(), size);
        assert_eq!(hasher.hash(b"some bytes of input").len(), size);
    }
}

#[test]
fn kawaii_repeated_calls_agree() {
    let hasher = KawaiiHash::with_size_and_seed(40, 99);
    let data = b"the same data twice";
    assert_eq!(hasher.hash(data), hasher.hash(data));
    assert_eq!(hasher.hash(&[]), hasher.hash(&[]));
}

#[test]
fn kawaii_seed_and_data_matter() {
    let a = KawaiiHash::with_seed(1).hash(b"abc");
    let b = KawaiiHash::with_seed(2).hash(b"abc");
    let c = KawaiiHash::with_seed(1).hash(b"abd");
    assert_ne!(a, b);
    assert_ne!(a, c);
}

fn rotl13(x: u64) -> u64 {
    (x << 13) | (x >> 51)
}

#[test]
fn kawaii_exact_value_follows_the_construction() {
    let seed: u64 = 77;
    let data: Vec<u8> = (1u8..=11).collect();
    // Absorb: two chunks, the second zero-padded.
    let mut acc = seed;
    for chunk in data.chunks(8) {
        let mut word = [0u8; 8];
        word[..chunk.len()].copy_from_slice(chunk);
        let v = u64::from_le_bytes(word);
        acc = rotl13(acc.wrapping_add(v)) ^ v;
    }
    // Squeeze 12 bytes: two words, the second cut short.
    let mut rng = StdRng::seed_from_u64(seed);
    let mut expected = Vec::new();
    while expected.len() < 12 {
        acc = acc.wrapping_mul(0x6c508bbb9c09c9df);
        acc ^= acc >> 32;
        acc = acc.wrapping_add(rng.gen::<u64>());
        expected.extend_from_slice(&acc.to_le_bytes());
    }
    expected.truncate(12);
    let hasher = KawaiiHash::with_size_and_seed(12, seed);
    assert_eq!(hasher.hash(&data), expected);
}

#[test]
fn kawaii_identify_and_reset() {
    let mut hasher = KawaiiHash::new();
    let before = hasher.hash(b"x");
    hasher.reset();
    assert_eq!(hasher.hash(b"x"), before);
    assert_eq!(hasher.identify(), "KawaiiHash");
}
