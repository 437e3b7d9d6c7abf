//! The magic-mix construction: a fixed 16-byte hash driven by a 32-bit constant.
use crate::prng::{std_rng_byte, SeededRng};
use crate::NekoHash;
use vstd::prelude::*;

verus! {

/// The magic number of a `MagicalHash` made without one.
pub const MAGIC_CONSTANT: u32 = 0x19950816;

/// The output size of every `MagicalHash`.
pub const MAGICAL_SIZE: usize = 16;

/// `x` rotated left by 3 bits.
pub open spec fn rotl3(x: u8) -> u8 {
    (x << 3u8) | (x >> 5u8)
}

/// `x` rotated left by 7 bits.
pub open spec fn rotl7(x: u32) -> u32 {
    (x << 7u32) | (x >> 25u32)
}

/// Byte `k` (little-endian) of `x`.
pub open spec fn le_byte32(x: u32, k: nat) -> u8 {
    (x >> ((8 * k) as u32)) as u8
}

/// The little-endian word made of bytes `4w .. 4w + 4` of `b`.
pub open spec fn le_word32(b: Seq<u8>, w: int) -> u32 {
    (b[4 * w] as u32) | ((b[4 * w + 1] as u32) << 8u32) | ((b[4 * w + 2] as u32) << 16u32) | ((b[4
        * w + 3] as u32) << 24u32)
}

/// The starting buffer: the little-endian bytes of `magic`, four times over.
pub open spec fn magical_start(magic: u32) -> Seq<u8> {
    Seq::new(16, |i: int| le_byte32(magic, (i % 4) as nat))
}

/// The buffer after the first `n` bytes of `data` were mixed in: each byte is
/// XORed into its slot, the slot rotated left by 3 and the next stream byte
/// added.
pub open spec fn magical_absorbed(magic: u32, data: Seq<u8>, n: nat) -> Seq<u8>
    decreases n,
{
    if n == 0 {
        magical_start(magic)
    } else {
        let prev = magical_absorbed(magic, data, (n - 1) as nat);
        let idx = (n - 1) % 16;
        prev.update(
            idx,
            rotl3(prev[idx] ^ data[n - 1]).wrapping_add(std_rng_byte(magic as u64, (n - 1) as nat)),
        )
    }
}

/// One word step: multiply by `magic`, rotate left by 7, XOR with `magic`.
pub open spec fn mix_word(v: u32, magic: u32) -> u32 {
    rotl7(v.wrapping_mul(magic)) ^ magic
}

/// The buffer after the word step on each of its four words.
pub open spec fn magical_mixed(b: Seq<u8>, magic: u32) -> Seq<u8> {
    Seq::new(16, |i: int| le_byte32(mix_word(le_word32(b, i / 4), magic), (i % 4) as nat))
}

/// The final pass: add the next stream byte, then rotate left by 3; the
/// stream has already handed out `drawn` bytes.
pub open spec fn magical_finish(b: Seq<u8>, magic: u32, drawn: nat) -> Seq<u8> {
    Seq::new(16, |i: int| rotl3(b[i].wrapping_add(std_rng_byte(magic as u64, drawn + i as nat))))
}

/// The hash of `data` under `magic`.
pub open spec fn magical_hash(magic: u32, data: Seq<u8>) -> Seq<u8> {
    magical_finish(
        magical_mixed(magical_absorbed(magic, data, data.len()), magic),
        magic,
        data.len(),
    )
}

/// The magic-mix construction.
pub struct MagicalHash {
    magic: u32,
}

impl Default for MagicalHash {
    fn default() -> (r: Self)
        ensures
            r.magic() == MAGIC_CONSTANT,
    {
        Self::new()
    }
}

impl MagicalHash {
    /// The magic number.
    pub closed spec fn magic(&self) -> u32 {
        self.magic
    }

    /// A hash with the default magic number.
    pub fn new() -> (r: Self)
        ensures
            r.magic() == MAGIC_CONSTANT,
    {
        Self::with_magic(MAGIC_CONSTANT)
    }

    /// A hash with the given magic number.
    pub fn with_magic(magic: u32) -> (r: Self)
        ensures
            r.magic() == magic,
    {
        MagicalHash { magic }
    }
}

/// Two hashers of the same magic number give the same hash of the same data.
pub proof fn lemma_magical_deterministic(a: &MagicalHash, b: &MagicalHash, data: Seq<u8>)
    requires
        a.magic() == b.magic(),
    ensures
        a.spec_hash(data) == b.spec_hash(data),
{
}

/// `x` rotated left by 3 bits.
fn rotate_left_3(x: u8) -> (r: u8)
    ensures
        r == rotl3(x),
{
    (x << 3u8) | (x >> 5u8)
}

/// `x` rotated left by 7 bits.
fn rotate_left_7(x: u32) -> (r: u32)
    ensures
        r == rotl7(x),
{
    (x << 7u32) | (x >> 25u32)
}

/// The starting buffer for `magic`.
fn start_buffer(magic: u32) -> (r: Vec<u8>)
    ensures
        r@ == magical_start(magic),
{
    let mut r: Vec<u8> = Vec::new();
    let mut i: usize = 0;
    while i < 16
        invariant
            i <= 16,
            r@.len() == i,
            forall|j: int| 0 <= j < i ==> #[trigger] r@[j] == le_byte32(magic, (j % 4) as nat),
        decreases 16 - i,
    {
        r.push((magic >> ((8 * (i % 4)) as u32)) as u8);
        i = i + 1;
    }
    assert(r@ =~= magical_start(magic));
    r
}

/// Applies the word step to each of the four words of `b`.
fn mix_words(b: &mut Vec<u8>, magic: u32)
    requires
        old(b)@.len() == 16,
    ensures
        final(b)@ == magical_mixed(old(b)@, magic),
{
    let ghost orig = b@;
    let mut w: usize = 0;
    while w < 4
        invariant
            w <= 4,
            orig.len() == 16,
            orig == old(b)@,
            b@.len() == 16,
            forall|i: int| 4 * w <= i < 16 ==> #[trigger] b@[i] == orig[i],
            forall|i: int| 0 <= i < 4 * w ==> #[trigger] b@[i] == magical_mixed(orig, magic)[i],
        decreases 4 - w,
    {
        let v: u32 = (b[4 * w] as u32) | ((b[4 * w + 1] as u32) << 8u32) | ((b[4 * w + 2] as u32)
            << 16u32) | ((b[4 * w + 3] as u32) << 24u32);
        assert(v == le_word32(orig, w as int));
        let m = rotate_left_7(v.wrapping_mul(magic)) ^ magic;
        let mut k: usize = 0;
        while k < 4
            invariant
                w < 4,
                k <= 4,
                orig.len() == 16,
                b@.len() == 16,
                m == mix_word(le_word32(orig, w as int), magic),
                forall|i: int| 4 * w + k <= i < 16 ==> #[trigger] b@[i] == orig[i],
                forall|i: int|
                    0 <= i < 4 * w + k ==> #[trigger] b@[i] == magical_mixed(orig, magic)[i],
            decreases 4 - k,
        {
            b.set(4 * w + k, (m >> ((8 * k) as u32)) as u8);
            k = k + 1;
        }
        w = w + 1;
    }
    assert(b@ =~= magical_mixed(orig, magic));
}

impl NekoHash for MagicalHash {
    open spec fn spec_hash(&self, data: Seq<u8>) -> Seq<u8> {
        magical_hash(self.magic(), data)
    }

    open spec fn spec_output_size(&self) -> nat {
        MAGICAL_SIZE as nat
    }

    open spec fn spec_name(&self) -> Seq<char> {
        "MagicalHash"@
    }

    proof fn lemma_hash_len(&self, data: Seq<u8>) {
    }

    fn hash(&self, data: &[u8]) -> (r: Vec<u8>) {
        let magic = self.magic;
        let mut stream = SeededRng::from_seed(magic as u64);
        let mut result = start_buffer(magic);
        let mut i: usize = 0;
        while i < data.len()
            invariant
                i <= data@.len(),
                stream.seed() == magic as u64,
                stream.words_drawn() == 0,
                stream.bytes_drawn() == i,
                result@ == magical_absorbed(magic, data@, i as nat),
                result@.len() == 16,
            decreases data@.len() - i,
        {
            let idx = i % 16;
            let mixed = rotate_left_3(result[idx] ^ data[i]);
            let r = stream.next_byte();
            result.set(idx, mixed.wrapping_add(r));
            i = i + 1;
        }
        mix_words(&mut result, magic);
        let ghost mixed_buf = result@;
        let mut j: usize = 0;
        while j < 16
            invariant
                j <= 16,
                stream.seed() == magic as u64,
                stream.words_drawn() == 0,
                stream.bytes_drawn() == data@.len() + j,
                mixed_buf.len() == 16,
                result@.len() == 16,
                forall|k: int| j <= k < 16 ==> #[trigger] result@[k] == mixed_buf[k],
                forall|k: int|
                    0 <= k < j ==> #[trigger] result@[k] == magical_finish(
                        mixed_buf,
                        magic,
                        data@.len(),
                    )[k],
            decreases 16 - j,
        {
            let r = stream.next_byte();
            let b = rotate_left_3(result[j].wrapping_add(r));
            result.set(j, b);
            j = j + 1;
        }
        assert(result@ =~= magical_hash(magic, data@));
        result
    }

    fn identify(&self) -> (r: String) {
        String::from_str("MagicalHash")
    }

    fn output_size(&self) -> (r: usize) {
        MAGICAL_SIZE
    }
}

} // verus!
