use nekohash::{NekoHash, TsundereHash};
use rand::rngs::StdRng;
use rand::{Rng, SeedableRng};

#[test]
fn test_tsundere_hash() {
    let hasher = TsundereHash::new();
    let input = b"Hello, World!";
    let hash = hasher.hash(input);
    assert_eq!(hash.len(), 32);
}

#[test]
fn test_tsundere_hash_custom_rounds() {
    let hasher = TsundereHash::with_rounds(16);
    let input = b"Hello, World!";
    let hash = hasher.hash(input);
    assert_eq!(hash.len(), 32);
}

#[test]
fn test_tsundere_hash_reset() {
    let mut hasher = TsundereHash::new();
    let input = b"Hello, World!";

    let hash1 = hasher.hash(input);
    hasher.reset();
    let hash2 = hasher.hash(input);

    assert_eq!(hash1, hash2);
}

fn tsundere_by_hand(rounds: usize, data: &[u8]) -> Vec<u8> {
    let mut rng = StdRng::seed_from_u64(0x544e554e44455245);
    let mut b = [0u8; 32];
    for (i, &x) in data.iter().enumerate() {
        b[i % 32] ^= x;
    }
    for _ in 0..rounds {
        for i in 0..32 {
            b[i] = b[i].wrapping_add(rng.gen::<u8>()).rotate_left(3);
        }
        for i in 1..32 {
            b[i] ^= b[i - 1];
        }
        for i in (0..31).rev() {
            b[i] ^= b[i + 1];
        }
        for i in 0..32 {
            b[i] = b[i].wrapping_mul(0xB5) ^ rng.gen::<u8>();
        }
    }
    b.to_vec()
}

#[test]
fn tsundere_exact_value_follows_the_construction() {
    let data: Vec<u8> = (0u8..70).collect();
    assert_eq!(TsundereHash::new().hash(&data), tsundere_by_hand(8, &data));
    assert_eq!(TsundereHash::with_rounds(3).hash(b"abc"), tsundere_by_hand(3, b"abc"));
}

#[test]
fn tsundere_zero_rounds_only_absorbs() {
    let mut expected = vec![0u8; 32];
    expected[0] = 1 ^ 33;
    expected[1] = 2;
    let mut data = vec![0u8; 33];
    data[0] = 1;
    data[1] = 2;
    data[32] = 33;
    assert_eq!(TsundereHash::with_rounds(0).hash(&data), expected);
}

#[test]
fn tsundere_length_and_repeatability() {
    let hasher = TsundereHash::with_rounds(2);
    assert_eq!(hasher.output_size(), 32);
    assert_eq!(hasher.hash(&[]).len(), 32);
    assert_eq!(hasher.hash(b"again"), hasher.hash(b"again"));
    assert_eq!(hasher.identify(), "TsundereHash");
}
