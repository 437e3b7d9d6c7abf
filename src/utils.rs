//! The utility layer: hex and base64 codecs, hash combination, constant-time
//! comparison, encryption, and key generation, stretching, derivation and
//! rotation.
use crate::kawaii::{kawaii_hash, le_byte, DEFAULT_SEED};
use crate::magical::rotl3;
use crate::primitives::{
    apply_ctr_keystream, base64_decode, base64_decoded, base64_encode, base64_len_fits,
    base64_text, ctr_apply, random_bytes, unix_seconds,
};
use crate::{KawaiiHash, NekoError, NekoHash, NekoResult};
use vstd::prelude::*;
use vstd::slice::{slice_subrange, slice_to_vec};
use vstd::utf8::encode_utf8;

verus! {

/// The lowercase hex digit of `d` (below 16): ASCII 48 is `0`, 97 is `a`.
pub open spec fn hex_digit(d: u8) -> char {
    if d < 10 {
        (48 + d) as char
    } else {
        (87 + d) as char
    }
}

/// The lowercase hex text of `bytes`: two digits per byte, high nibble first.
pub open spec fn hex_text(bytes: Seq<u8>) -> Seq<char> {
    Seq::new(
        2 * bytes.len(),
        |i: int|
            if i % 2 == 0 {
                hex_digit(bytes[i / 2] / 16)
            } else {
                hex_digit(bytes[i / 2] % 16)
            },
    )
}

/// Whether `b` is the ASCII code of a hex digit, in either case.
pub open spec fn is_hex_byte(b: u8) -> bool {
    (48 <= b <= 57) || (97 <= b <= 102) || (65 <= b <= 70)
}

/// The value of the hex digit with ASCII code `b`.
pub open spec fn hex_value(b: u8) -> u8 {
    if 48 <= b <= 57 {
        (b - 48) as u8
    } else if 97 <= b <= 102 {
        (b - 87) as u8
    } else {
        (b - 55) as u8
    }
}

/// The bytes that the hex text `text` (as UTF-8 bytes) stands for, or `None`
/// where its length is odd or it holds a byte that is no hex digit.
pub open spec fn hex_decoded(text: Seq<u8>) -> Option<Seq<u8>> {
    if text.len() % 2 == 0 && forall|i: int| 0 <= i < text.len() ==> is_hex_byte(#[trigger] text[i]) {
        Some(
            Seq::new(
                text.len() / 2,
                |i: int| (hex_value(text[2 * i]) * 16 + hex_value(text[2 * i + 1])) as u8,
            ),
        )
    } else {
        None
    }
}

/// The lowercase hex text of `bytes`.
pub fn to_hex(bytes: &[u8]) -> (r: String)
    ensures
        r@ == hex_text(bytes@),
{
    let digits = "0123456789abcdef";
    proof {
        reveal_strlit("0123456789abcdef");
        assert(digits@.len() == 16);
        assert forall|d: u8| d < 16 implies #[trigger] digits@[d as int] == hex_digit(d) by {
            if d == 0 {} else if d == 1 {} else if d == 2 {} else if d == 3 {} else if d == 4 {}
            else if d == 5 {} else if d == 6 {} else if d == 7 {} else if d == 8 {} else if d == 9 {}
            else if d == 10 {} else if d == 11 {} else if d == 12 {} else if d == 13 {}
            else if d == 14 {} else {}
        }
    }
    let mut hex = String::new();
    let mut i: usize = 0;
    while i < bytes.len()
        invariant
            i <= bytes@.len(),
            digits@.len() == 16,
            digits.is_ascii(),
            forall|d: u8| d < 16 ==> #[trigger] digits@[d as int] == hex_digit(d),
            hex@ == hex_text(bytes@.subrange(0, i as int)),
        decreases bytes@.len() - i,
    {
        let hi = bytes[i] / 16;
        let lo = bytes[i] % 16;
        hex.append(digits.substring_ascii(hi as usize, hi as usize + 1));
        hex.append(digits.substring_ascii(lo as usize, lo as usize + 1));
        i = i + 1;
        assert(hex@ =~= hex_text(bytes@.subrange(0, i as int)));
    }
    assert(bytes@.subrange(0, i as int) =~= bytes@);
    hex
}


/// The value of the hex digit with ASCII code `b`, if it is one.
fn hex_digit_value(b: u8) -> (r: Option<u8>)
    ensures
        r is Some <==> is_hex_byte(b),
        r is Some ==> r->Some_0 == hex_value(b) && r->Some_0 < 16,
{
    if 48 <= b && b <= 57 {
        Some(b - 48)
    } else if 97 <= b && b <= 102 {
        Some(b - 87)
    } else if 65 <= b && b <= 70 {
        Some(b - 55)
    } else {
        None
    }
}

/// An `EncodingError` with the given message.
fn encoding_error(msg: &str) -> (e: NekoError)
    ensures
        e is EncodingError,
{
    NekoError::EncodingError(String::from_str(msg))
}

/// An `InvalidInput` error with the given message.
fn invalid_input(msg: &str) -> (e: NekoError)
    ensures
        e is InvalidInput,
{
    NekoError::InvalidInput(String::from_str(msg))
}

/// A `KeyError` with the given message.
fn key_error(msg: &str) -> (e: NekoError)
    ensures
        e is KeyError,
{
    NekoError::KeyError(String::from_str(msg))
}

/// The bytes that the hex text `hex` stands for. Both cases of the digits
/// `a` to `f` are accepted; an odd length or any other character is an
/// `EncodingError`.
pub fn from_hex(hex: &str) -> (r: NekoResult<Vec<u8>>)
    ensures
        match r {
            Ok(v) => hex_decoded(encode_utf8(hex@)) == Some(v@),
            Err(e) => hex_decoded(encode_utf8(hex@)) is None && e is EncodingError,
        },
{
    let text = hex.as_bytes();
    let ghost t = text@;
    if text.len() % 2 != 0 {
        return Err(encoding_error("Invalid hex string length"));
    }
    let half = text.len() / 2;
    let mut out: Vec<u8> = Vec::new();
    let mut i: usize = 0;
    while i < half
        invariant
            t == encode_utf8(hex@),
            t == text@,
            t.len() % 2 == 0,
            half == t.len() / 2,
            i <= half,
            forall|j: int| 0 <= j < 2 * i ==> is_hex_byte(#[trigger] t[j]),
            out@ == Seq::new(
                i as nat,
                |k: int| (hex_value(t[2 * k]) * 16 + hex_value(t[2 * k + 1])) as u8,
            ),
        decreases half - i,
    {
        let len = text.len();
        assert(2 * i + 1 < len) by (nonlinear_arith)
            requires
                i < half,
                half == len / 2,
                len % 2 == 0,
        ;
        let hi = hex_digit_value(text[2 * i]);
        let lo = hex_digit_value(text[2 * i + 1]);
        match (hi, lo) {
            (Some(h), Some(l)) => {
                out.push(h * 16 + l);
            },
            _ => {
                proof {
                    if hi is None {
                        assert(!is_hex_byte(t[2 * i as int]));
                    } else {
                        assert(!is_hex_byte(t[2 * i + 1]));
                    }
                }
                return Err(encoding_error("Invalid hex character"));
            },
        }
        i = i + 1;
        assert(out@ =~= Seq::new(
            i as nat,
            |k: int| (hex_value(t[2 * k]) * 16 + hex_value(t[2 * k + 1])) as u8,
        ));
    }
    assert(forall|j: int| 0 <= j < t.len() ==> is_hex_byte(#[trigger] t[j]));
    Ok(out)
}

/// Hex text decodes back to the bytes it was made from: `from_hex(to_hex(b))`
/// is `b`.
pub proof fn lemma_hex_round_trip(bytes: Seq<u8>)
    ensures
        hex_decoded(encode_utf8(hex_text(bytes))) == Some(bytes),
{
    let t = hex_text(bytes);
    assert forall|i: int| 0 <= i < t.len() implies '\0' <= #[trigger] t[i] <= '\u{7f}' by {
        let d: u8 = if i % 2 == 0 { bytes[i / 2] / 16 } else { bytes[i / 2] % 16 };
        assert(t[i] == hex_digit(d));
    }
    vstd::utf8::is_ascii_chars_encode_utf8(t);
    let e = encode_utf8(t);
    assert forall|i: int| 0 <= i < e.len() implies is_hex_byte(#[trigger] e[i])
        && hex_value(e[i]) == (if i % 2 == 0 { bytes[i / 2] / 16 } else { bytes[i / 2] % 16 }) by {
        let d: u8 = if i % 2 == 0 { bytes[i / 2] / 16 } else { bytes[i / 2] % 16 };
        assert(t[i] == hex_digit(d));
        assert(e[i] == t[i] as u8);
    }
    let decoded = hex_decoded(e).unwrap();
    assert(decoded =~= bytes);
}

/// Whether `a` and `b` hold the same bytes. Slices of different lengths
/// differ at once; for equal lengths every byte pair is looked at, so the
/// time taken does not depend on where they differ.
pub fn constant_time_compare(a: &[u8], b: &[u8]) -> (r: bool)
    ensures
        r == (a@ == b@),
{
    if a.len() != b.len() {
        return false;
    }
    let mut acc: u8 = 0;
    let mut i: usize = 0;
    while i < a.len()
        invariant
            a@.len() == b@.len(),
            i <= a@.len(),
            (acc == 0) == (forall|j: int| 0 <= j < i ==> a@[j] == b@[j]),
        decreases a@.len() - i,
    {
        let x = a[i];
        let y = b[i];
        assert((acc | (x ^ y)) == 0u8 <==> (acc == 0u8 && x == y)) by (bit_vector);
        acc = acc | (x ^ y);
        i = i + 1;
    }
    assert((acc == 0) ==> a@ =~= b@);
    acc == 0
}


/// The greatest length among `hashes` (zero for none).
pub open spec fn max_len(hashes: Seq<Seq<u8>>) -> nat
    decreases hashes.len(),
{
    if hashes.len() == 0 {
        0
    } else {
        let m = max_len(hashes.drop_last());
        if hashes.last().len() > m {
            hashes.last().len()
        } else {
            m
        }
    }
}

/// `acc` with `h` folded in: byte `i` of `h` is XORed into `acc[i]`, which is
/// then rotated left by 3 bits.
pub open spec fn fold_hash(acc: Seq<u8>, h: Seq<u8>) -> Seq<u8> {
    Seq::new(acc.len(), |i: int| if i < h.len() { rotl3(acc[i] ^ h[i]) } else { acc[i] })
}

/// `m` zero bytes with the first `k` of `hashes` folded in, in order.
pub open spec fn combined(hashes: Seq<Seq<u8>>, k: nat, m: nat) -> Seq<u8>
    decreases k,
{
    if k == 0 {
        Seq::new(m, |i: int| 0u8)
    } else {
        fold_hash(combined(hashes, (k - 1) as nat, m), hashes[k - 1])
    }
}

/// All of `hashes` folded, in order, into a buffer of their greatest length.
pub open spec fn combine_spec(hashes: Seq<Seq<u8>>) -> Seq<u8> {
    combined(hashes, hashes.len(), max_len(hashes))
}

proof fn lemma_max_len_bounds(hashes: Seq<Seq<u8>>)
    ensures
        forall|j: int| 0 <= j < hashes.len() ==> #[trigger] hashes[j].len() <= max_len(hashes),
    decreases hashes.len(),
{
    if hashes.len() > 0 {
        lemma_max_len_bounds(hashes.drop_last());
        assert forall|j: int| 0 <= j < hashes.len() implies #[trigger] hashes[j].len() <= max_len(
            hashes,
        ) by {
            if j < hashes.len() - 1 {
                assert(hashes[j] == hashes.drop_last()[j]);
            }
        }
    }
}

proof fn lemma_combined_len(hashes: Seq<Seq<u8>>, k: nat, m: nat)
    ensures
        combined(hashes, k, m).len() == m,
    decreases k,
{
    if k > 0 {
        lemma_combined_len(hashes, (k - 1) as nat, m);
    }
}

/// Combines `hashes` into one buffer as long as the longest of them: each
/// byte of each hash, in order, is XORed into the byte at its position, which
/// is then rotated left by 3 bits. No hashes give an empty buffer.
pub fn combine_hashes(hashes: &[Vec<u8>]) -> (r: Vec<u8>)
    ensures
        r@ == combine_spec(hashes.deep_view()),
{
    let ghost hs = hashes.deep_view();
    let mut m: usize = 0;
    let mut k: usize = 0;
    while k < hashes.len()
        invariant
            hs == hashes.deep_view(),
            k <= hashes@.len(),
            m == max_len(hs.subrange(0, k as int)),
        decreases hashes@.len() - k,
    {
        assert(hs.subrange(0, k + 1).drop_last() =~= hs.subrange(0, k as int));
        if hashes[k].len() > m {
            m = hashes[k].len();
        }
        k = k + 1;
    }
    assert(hs.subrange(0, k as int) =~= hs);
    proof {
        lemma_max_len_bounds(hs);
    }
    let mut result: Vec<u8> = Vec::new();
    let mut i: usize = 0;
    while i < m
        invariant
            i <= m,
            result@ == Seq::new(i as nat, |j: int| 0u8),
        decreases m - i,
    {
        result.push(0);
        i = i + 1;
        assert(result@ =~= Seq::new(i as nat, |j: int| 0u8));
    }
    let mut k: usize = 0;
    while k < hashes.len()
        invariant
            hs == hashes.deep_view(),
            k <= hashes@.len(),
            m == max_len(hs),
            forall|j: int| 0 <= j < hs.len() ==> #[trigger] hs[j].len() <= m,
            result@ == combined(hs, k as nat, m as nat),
        decreases hashes@.len() - k,
    {
        let h = &hashes[k];
        assert(h@ == hs[k as int]);
        proof {
            lemma_combined_len(hs, k as nat, m as nat);
        }
        let ghost before = result@;
        let mut i: usize = 0;
        while i < h.len()
            invariant
                h@ == hs[k as int],
                h@.len() <= m,
                before.len() == m,
                result@.len() == m,
                i <= h@.len(),
                forall|j: int| i <= j < m ==> #[trigger] result@[j] == before[j],
                forall|j: int| 0 <= j < i ==> #[trigger] result@[j] == fold_hash(before, h@)[j],
            decreases h@.len() - i,
        {
            let x = result[i] ^ h[i];
            result.set(i, (x << 3u8) | (x >> 5u8));
            i = i + 1;
        }
        assert(result@ =~= fold_hash(before, h@));
        k = k + 1;
    }
    result
}

/// Combining no hashes gives an empty buffer.
pub proof fn lemma_combine_none()
    ensures
        combine_spec(Seq::<Seq<u8>>::empty()) == Seq::<u8>::empty(),
{
    assert(combine_spec(Seq::<Seq<u8>>::empty()) =~= Seq::<u8>::empty());
}

/// Combining a single hash rotates each of its bytes left by 3 bits.
pub proof fn lemma_combine_single(h: Seq<u8>)
    ensures
        combine_spec(seq![h]) == Seq::new(h.len(), |i: int| rotl3(h[i])),
{
    let hs = seq![h];
    assert(hs.drop_last() =~= Seq::<Seq<u8>>::empty());
    assert(max_len(hs.drop_last()) == 0);
    assert(hs.last() == h);
    assert(max_len(hs) == h.len());
    let zero = Seq::new(h.len(), |i: int| 0u8);
    assert(combined(hs, 0, h.len()) == zero);
    assert forall|i: int| 0 <= i < h.len() implies #[trigger] (zero[i] ^ h[i]) == h[i] by {
        let x = h[i];
        assert((0u8 ^ x) == x) by (bit_vector);
    }
    assert(combine_spec(hs) =~= Seq::new(h.len(), |i: int| rotl3(h[i])));
}

/// `key` rotated left by `bits` bits, taken modulo its length in bits: a
/// rotation by `bits / 8` whole bytes (byte `i` taken from `i + bits / 8`),
/// then a shift of every byte left by the remaining bits, each byte taking
/// the bits shifted out of the one before it, and the first byte those of the
/// last. An empty key stays empty.
pub open spec fn rotated_key(key: Seq<u8>, bits: u32) -> Seq<u8> {
    let n = key.len();
    if n == 0 {
        key
    } else {
        let rot = (bits as nat) % (8 * n);
        let q = rot / 8;
        let s = rot % 8;
        let moved = Seq::new(n, |i: int| key[(i + q) % (n as int)]);
        if s == 0 {
            moved
        } else {
            Seq::new(
                n,
                |i: int|
                    (moved[i] << (s as u8)) | (moved[(i + n - 1) % (n as int)] >> ((8 - s) as u8)),
            )
        }
    }
}

/// Rotates `key` left by `bits` bits (see `rotated_key`).
pub fn rotate_key(key: &[u8], bits: u32) -> (r: Vec<u8>)
    ensures
        r@ == rotated_key(key@, bits),
{
    let n = key.len();
    if n == 0 {
        return Vec::new();
    }
    let rot: u64 = if n as u64 >= 0x2000_0000 {
        proof {
            vstd::arithmetic::div_mod::lemma_small_mod(bits as nat, (8 * n) as nat);
        }
        bits as u64
    } else {
        (bits as u64) % (8 * n as u64)
    };
    assert(rot == (bits as nat) % (8 * n as nat));
    let q: usize = (rot / 8) as usize;
    let s: u8 = (rot % 8) as u8;
    assert(q < n);
    let mut moved: Vec<u8> = Vec::new();
    let mut i: usize = 0;
    while i < n
        invariant
            n == key@.len(),
            q < n,
            i <= n,
            moved@.len() == i,
            forall|j: int| 0 <= j < i ==> #[trigger] moved@[j] == key@[(j + q) % (n as int)],
        decreases n - i,
    {
        let j: usize = if i < n - q {
            i + q
        } else {
            i - (n - q)
        };
        assert(j == (i + q) % (n as int)) by {
            if i < n - q {
                vstd::arithmetic::div_mod::lemma_small_mod((i + q) as nat, n as nat);
            } else {
                vstd::arithmetic::div_mod::lemma_fundamental_div_mod_converse(
                    (i + q) as int,
                    n as int,
                    1,
                    (i + q - n) as int,
                );
            }
        }
        moved.push(key[j]);
        i = i + 1;
    }
    assert(moved@ =~= Seq::new(n as nat, |i: int| key@[(i + q) % (n as int)]));
    if s == 0 {
        return moved;
    }
    let ghost m0 = moved@;
    let mut carry: u8 = 0;
    let mut i: usize = 0;
    while i < n
        invariant
            n == m0.len(),
            n > 0,
            0 < s < 8,
            i <= n,
            moved@.len() == n,
            i == 0 ==> carry == 0,
            i > 0 ==> carry == m0[i - 1] >> ((8 - s) as u8),
            forall|j: int| i <= j < n ==> #[trigger] moved@[j] == m0[j],
            forall|j: int| 0 < j < i ==> #[trigger] moved@[j] == (m0[j] << s) | (m0[j - 1] >> ((8 - s) as u8)),
            i > 0 ==> moved@[0] == m0[0] << s,
        decreases n - i,
    {
        let b = moved[i];
        let next_carry = b >> (8 - s);
        let shifted = b << s;
        proof {
            if i == 0 {
                assert((shifted | 0u8) == shifted) by (bit_vector);
            }
        }
        moved.set(i, shifted | carry);
        carry = next_carry;
        i = i + 1;
    }
    let first = moved[0] | carry;
    moved.set(0, first);
    assert forall|j: int| 0 < j < n implies #[trigger] ((j + n - 1) % (n as int)) == j - 1 by {
        vstd::arithmetic::div_mod::lemma_fundamental_div_mod_converse(
            (j + n - 1) as int,
            n as int,
            1,
            j - 1,
        );
    }
    assert((0 + n - 1) % (n as int) == n - 1) by {
        vstd::arithmetic::div_mod::lemma_small_mod((n - 1) as nat, n as nat);
    }
    assert(moved@ =~= rotated_key(key@, bits));
    moved
}


/// The length of a key.
pub const KEY_SIZE: usize = 32;

/// The length of an initialization vector.
pub const IV_SIZE: usize = 16;

/// The length of a salt.
pub const SALT_SIZE: usize = 16;

/// The number of hash iterations of `derive_key`.
pub const DERIVE_ITERATIONS: usize = 10000;

/// The bytes of an envelope: the base64 text of `iv ‖ ciphertext`, where the
/// ciphertext is `data` under `key` and `iv` in counter mode.
pub open spec fn envelope_bytes(key: Seq<u8>, iv: Seq<u8>, data: Seq<u8>) -> Seq<u8> {
    encode_utf8(base64_text(iv + ctr_apply(key, iv, data)))
}

/// Whether `env` is the envelope of `data` under `key` and the 16-byte `iv`,
/// which the base64 engine decodes back to `iv ‖ ciphertext`.
pub open spec fn sealed_with(env: Seq<u8>, key: Seq<u8>, iv: Seq<u8>, data: Seq<u8>) -> bool {
    &&& iv.len() == IV_SIZE
    &&& env == envelope_bytes(key, iv, data)
    &&& base64_decoded(env) == Some(iv + ctr_apply(key, iv, data))
}

/// Whether `env` is an envelope of `data` under `key`, for some IV.
pub open spec fn is_envelope(env: Seq<u8>, key: Seq<u8>, data: Seq<u8>) -> bool {
    exists|iv: Seq<u8>| #[trigger] sealed_with(env, key, iv, data)
}

/// The plaintext that `decrypt_data` recovers from `env` with `key`: `None`
/// where the key is not 32 bytes, the text is no base64, or it decodes to
/// fewer than 16 bytes.
pub open spec fn opened(env: Seq<u8>, key: Seq<u8>) -> Option<Seq<u8>> {
    if key.len() != KEY_SIZE {
        None
    } else {
        match base64_decoded(env) {
            Some(b) => if b.len() < IV_SIZE {
                None
            } else {
                Some(ctr_apply(key, b.subrange(0, IV_SIZE as int), b.subrange(IV_SIZE as int, b.len() as int)))
            },
            None => None,
        }
    }
}

/// `data` hashed `iterations` times over by the default `KawaiiHash` of
/// `size` bytes.
pub open spec fn stretched(data: Seq<u8>, iterations: nat, size: nat) -> Seq<u8>
    decreases iterations,
{
    if iterations == 0 {
        data
    } else {
        kawaii_hash(DEFAULT_SEED, size, stretched(data, (iterations - 1) as nat, size))
    }
}

/// The key that `derive_key` makes of `password` and `salt`.
pub open spec fn derived(password: Seq<u8>, salt: Seq<u8>) -> Seq<u8> {
    stretched(password + salt, DERIVE_ITERATIONS as nat, KEY_SIZE as nat)
}

/// The little-endian bytes of `x`.
pub open spec fn le_bytes(x: u64) -> Seq<u8> {
    Seq::new(8, |k: int| le_byte(x, k as nat))
}

/// The key for `seed` in the time slot of `now_secs` (whole seconds since the
/// Unix epoch) with windows of `window` seconds, under `salt`.
pub open spec fn time_slot_key(seed: Seq<u8>, window: u64, now_secs: u64, salt: Seq<u8>) -> Seq<u8> {
    derived(seed + le_bytes(now_secs / window), salt)
}

/// Once stretched at least once, data is `size` bytes long.
pub proof fn lemma_stretched_len(data: Seq<u8>, iterations: nat, size: nat)
    requires
        iterations > 0,
    ensures
        stretched(data, iterations, size).len() == size,
{
}

/// A derived key is 32 bytes long, whatever the password and salt.
pub proof fn lemma_derived_len(password: Seq<u8>, salt: Seq<u8>)
    ensures
        derived(password, salt).len() == KEY_SIZE,
{
    lemma_stretched_len(password + salt, DERIVE_ITERATIONS as nat, KEY_SIZE as nat);
}

/// Decryption undoes encryption: an envelope of `data` under a 32-byte `key`
/// (what `encrypt_data(data, Some(key))` returns) opens to `data` under `key`.
pub proof fn lemma_decrypt_inverts_encrypt(env: Seq<u8>, key: Seq<u8>, data: Seq<u8>)
    requires
        key.len() == KEY_SIZE,
        is_envelope(env, key, data),
    ensures
        opened(env, key) == Some(data),
{
    let iv = choose|iv: Seq<u8>| #[trigger] sealed_with(env, key, iv, data);
    let ct = ctr_apply(key, iv, data);
    let b = iv + ct;
    assert(b.subrange(0, IV_SIZE as int) =~= iv);
    assert(b.subrange(IV_SIZE as int, b.len() as int) =~= ct);
    let back = ctr_apply(key, iv, ct);
    assert forall|i: int| 0 <= i < data.len() implies #[trigger] back[i] == data[i] by {
        let x = data[i];
        let k = crate::primitives::aes256_ctr_keystream(key, iv, data.len())[i];
        assert((x ^ k) ^ k == x) by (bit_vector);
    }
    assert(back =~= data);
}

/// A fresh random key of 32 bytes.
pub fn generate_key() -> (r: Vec<u8>)
    ensures
        r@.len() == KEY_SIZE,
{
    random_bytes(KEY_SIZE)
}

/// A fresh random salt of 16 bytes.
pub fn generate_salt() -> (r: Vec<u8>)
    ensures
        r@.len() == SALT_SIZE,
{
    random_bytes(SALT_SIZE)
}

/// The envelope of `data` under `key` and `iv`: the base64 text (as bytes) of
/// `iv` followed by `data` encrypted with AES-256 in counter mode.
pub fn encrypt_with_iv(data: &[u8], key: &[u8], iv: &[u8]) -> (r: Vec<u8>)
    requires
        key@.len() == KEY_SIZE,
        iv@.len() == IV_SIZE,
        base64_len_fits(data@.len() + IV_SIZE as nat),
    ensures
        sealed_with(r@, key@, iv@, data@),
{
    let mut sealed = slice_to_vec(iv);
    let mut ciphertext = apply_ctr_keystream(key, iv, data);
    sealed.append(&mut ciphertext);
    let text = base64_encode(sealed.as_slice());
    slice_to_vec(text.as_str().as_bytes())
}

/// Encrypts `data` with AES-256 in counter mode under `key`, or under a fresh
/// random key where none is given, and a fresh random IV; returns the base64
/// text of `IV ‖ ciphertext` as bytes. A given key of other than 32 bytes is
/// a `KeyError`.
pub fn encrypt_data(data: &[u8], key: Option<&[u8]>) -> (r: NekoResult<Vec<u8>>)
    requires
        base64_len_fits(data@.len() + IV_SIZE as nat),
    ensures
        r is Err <==> (key is Some && key->Some_0@.len() != KEY_SIZE),
        r is Err ==> r->Err_0 is KeyError,
        r is Ok ==> exists|k: Seq<u8>|
            #![trigger is_envelope(r->Ok_0@, k, data@)]
            k.len() == KEY_SIZE && (key is Some ==> k == key->Some_0@) && is_envelope(
                r->Ok_0@,
                k,
                data@,
            ),
{
    let owned: Vec<u8> = match key {
        Some(k) => {
            if k.len() != KEY_SIZE {
                return Err(key_error("Key must be exactly 32 bytes"));
            }
            slice_to_vec(k)
        },
        None => generate_key(),
    };
    let iv = random_bytes(IV_SIZE);
    let env = encrypt_with_iv(data, owned.as_slice(), iv.as_slice());
    let r: NekoResult<Vec<u8>> = Ok(env);
    assert(is_envelope(r->Ok_0@, owned@, data@));
    r
}

/// Decrypts an envelope made by `encrypt_data` with `key`. A key of other
/// than 32 bytes is a `KeyError`, text that is no base64 an `EncodingError`,
/// and text that decodes to fewer than 16 bytes a `CryptoError`. A wrong key
/// gives wrong bytes, not an error.
pub fn decrypt_data(encrypted_data: &[u8], key: &[u8]) -> (r: NekoResult<Vec<u8>>)
    ensures
        match r {
            Ok(v) => opened(encrypted_data@, key@) == Some(v@),
            Err(_) => opened(encrypted_data@, key@) is None,
        },
        key@.len() != KEY_SIZE ==> r matches Err(NekoError::KeyError(_)),
        key@.len() == KEY_SIZE && base64_decoded(encrypted_data@) is None ==> r matches Err(
            NekoError::EncodingError(_),
        ),
        key@.len() == KEY_SIZE && base64_decoded(encrypted_data@) is Some
            && base64_decoded(encrypted_data@)->Some_0.len() < IV_SIZE ==> r matches Err(
            NekoError::CryptoError(_),
        ),
{
    if key.len() != KEY_SIZE {
        return Err(key_error("Key must be exactly 32 bytes"));
    }
    let decoded = match base64_decode(encrypted_data) {
        Ok(b) => b,
        Err(_) => {
            return Err(encoding_error("Invalid base64"));
        },
    };
    if decoded.len() < IV_SIZE {
        return Err(NekoError::CryptoError(String::from_str("Invalid encrypted data")));
    }
    let iv = slice_subrange(decoded.as_slice(), 0, IV_SIZE);
    let ciphertext = slice_subrange(decoded.as_slice(), IV_SIZE, decoded.len());
    Ok(apply_ctr_keystream(key, iv, ciphertext))
}

/// The base64 text of `key`, which `key_from_base64` turns back into `key`.
pub fn key_to_base64(key: &[u8]) -> (r: String)
    requires
        base64_len_fits(key@.len()),
    ensures
        r@ == base64_text(key@),
        base64_decoded(encode_utf8(r@)) == Some(key@),
{
    base64_encode(key)
}

/// The bytes of the base64 text `key_str`; text that is no base64 is an
/// `EncodingError`.
pub fn key_from_base64(key_str: &str) -> (r: NekoResult<Vec<u8>>)
    ensures
        match r {
            Ok(v) => base64_decoded(encode_utf8(key_str@)) == Some(v@),
            Err(e) => base64_decoded(encode_utf8(key_str@)) is None && e is EncodingError,
        },
{
    match base64_decode(key_str.as_bytes()) {
        Ok(v) => Ok(v),
        Err(_) => Err(encoding_error("Invalid base64 key")),
    }
}

/// Stretches `data` by hashing it `iterations` times over with the default
/// `KawaiiHash` of `output_size` bytes. Zero iterations or a zero output size
/// are `InvalidInput`.
pub fn stretch_key(data: &[u8], iterations: usize, output_size: usize) -> (r: NekoResult<Vec<u8>>)
    ensures
        r is Err <==> (iterations == 0 || output_size == 0),
        r is Err ==> r->Err_0 is InvalidInput,
        r is Ok ==> r->Ok_0@ == stretched(data@, iterations as nat, output_size as nat),
{
    if iterations == 0 {
        return Err(invalid_input("Iterations must be greater than 0"));
    }
    if output_size == 0 {
        return Err(invalid_input("Output size must be greater than 0"));
    }
    let hasher = KawaiiHash::with_size(output_size);
    let mut result = slice_to_vec(data);
    let mut i: usize = 0;
    while i < iterations
        invariant
            i <= iterations,
            hasher.size() == output_size,
            hasher.seed() == DEFAULT_SEED,
            result@ == stretched(data@, i as nat, output_size as nat),
        decreases iterations - i,
    {
        result = hasher.hash(result.as_slice());
        i = i + 1;
    }
    Ok(result)
}

/// Derives a 32-byte key from `password` and `salt`: their concatenation
/// stretched over 10000 iterations. An empty password or salt is
/// `InvalidInput`.
pub fn derive_key(password: &[u8], salt: &[u8]) -> (r: NekoResult<Vec<u8>>)
    ensures
        r is Err <==> (password@.len() == 0 || salt@.len() == 0),
        r is Err ==> r->Err_0 is InvalidInput,
        r is Ok ==> r->Ok_0@ == derived(password@, salt@) && r->Ok_0@.len() == KEY_SIZE,
{
    if password.len() == 0 {
        return Err(invalid_input("Password cannot be empty"));
    }
    if salt.len() == 0 {
        return Err(invalid_input("Salt cannot be empty"));
    }
    let mut input = slice_to_vec(password);
    let mut tail = slice_to_vec(salt);
    input.append(&mut tail);
    proof {
        lemma_derived_len(password@, salt@);
    }
    stretch_key(input.as_slice(), DERIVE_ITERATIONS, KEY_SIZE)
}

/// The key for `seed` in the time slot of `now_secs` (whole seconds since the
/// Unix epoch) with windows of `time_window` seconds: `seed` followed by the
/// little-endian bytes of `now_secs / time_window`, derived with `salt`. An
/// empty seed or salt, or a zero window, is `InvalidInput`.
pub fn time_based_key_at(seed: &[u8], time_window: u64, now_secs: u64, salt: &[u8]) -> (r:
    NekoResult<Vec<u8>>)
    ensures
        r is Err <==> (seed@.len() == 0 || time_window == 0 || salt@.len() == 0),
        r is Err ==> r->Err_0 is InvalidInput,
        r is Ok ==> r->Ok_0@ == time_slot_key(seed@, time_window, now_secs, salt@)
            && r->Ok_0@.len() == KEY_SIZE,
{
    if seed.len() == 0 {
        return Err(invalid_input("Seed cannot be empty"));
    }
    if time_window == 0 {
        return Err(invalid_input("Time window must be greater than 0"));
    }
    let slot = now_secs / time_window;
    let mut input = slice_to_vec(seed);
    let mut k: usize = 0;
    while k < 8
        invariant
            k <= 8,
            input@ == seed@ + le_bytes(slot).subrange(0, k as int),
        decreases 8 - k,
    {
        input.push((slot >> ((8 * k) as u64)) as u8);
        k = k + 1;
        assert(input@ =~= seed@ + le_bytes(slot).subrange(0, k as int));
    }
    assert(le_bytes(slot).subrange(0, 8) =~= le_bytes(slot));
    derive_key(input.as_slice(), salt)
}

/// A key for `seed` in the current time slot of `time_window` seconds (see
/// `time_based_key_at`). Each call draws a fresh random salt, so two calls in
/// the same window give different keys; where a key must be the same within
/// a window, call `time_based_key_at` with a salt kept for that purpose. An
/// empty seed or a zero window is `InvalidInput`; a clock set before the Unix
/// epoch is a `HashError`.
pub fn time_based_key(seed: &[u8], time_window: u64) -> (r: NekoResult<Vec<u8>>)
    ensures
        (seed@.len() == 0 || time_window == 0) <==> r matches Err(NekoError::InvalidInput(_)),
        r is Err ==> r->Err_0 is InvalidInput || r->Err_0 is HashError,
        r is Ok ==> r->Ok_0@.len() == KEY_SIZE && exists|now_secs: u64, salt: Seq<u8>|
            salt.len() == SALT_SIZE && r->Ok_0@ == #[trigger] time_slot_key(
                seed@,
                time_window,
                now_secs,
                salt,
            ),
{
    if seed.len() == 0 {
        return Err(invalid_input("Seed cannot be empty"));
    }
    if time_window == 0 {
        return Err(invalid_input("Time window must be greater than 0"));
    }
    let now = match unix_seconds() {
        Some(t) => t,
        None => {
            return Err(NekoError::HashError(String::from_str("System time error")));
        },
    };
    let salt = generate_salt();
    time_based_key_at(seed, time_window, now, salt.as_slice())
}

} // verus!
