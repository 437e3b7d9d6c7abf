//! The seeded-mix construction: a hash of configurable length.
use crate::prng::{std_rng_word, SeededRng};
use crate::NekoHash;
use vstd::prelude::*;

verus! {

/// The seed of a `KawaiiHash` made without one.
pub const DEFAULT_SEED: u64 = 0xDEADBEEF;

/// The output size of a `KawaiiHash` made without one.
pub const DEFAULT_SIZE: usize = 32;

/// The multiplier of the output step.
pub const SQUEEZE_MULTIPLIER: u64 = 0x6c508bbb9c09c9df;

/// The byte of `data` at `i`, or zero past its end.
pub open spec fn byte_or_zero(data: Seq<u8>, i: int) -> u8 {
    if 0 <= i < data.len() {
        data[i]
    } else {
        0
    }
}

/// The little-endian word made of the `j` bytes of `data` from `start` on
/// (zero past the end of `data`).
pub open spec fn le_word(data: Seq<u8>, start: int, j: nat) -> u64
    decreases j,
{
    if j == 0 {
        0
    } else {
        le_word(data, start, (j - 1) as nat) | ((byte_or_zero(data, start + j - 1) as u64) << ((
        8 * (j - 1)) as u64))
    }
}

/// The `k`-th eight-byte chunk of `data`, little-endian, zero-padded.
pub open spec fn chunk_word(data: Seq<u8>, k: nat) -> u64 {
    le_word(data, (8 * k) as int, 8)
}

/// The number of eight-byte chunks that cover `n` bytes.
pub open spec fn chunk_count(n: nat) -> nat {
    if n % 8 == 0 {
        n / 8
    } else {
        n / 8 + 1
    }
}

/// `x` rotated left by 13 bits.
pub open spec fn rotl13(x: u64) -> u64 {
    (x << 13u64) | (x >> 51u64)
}

/// One absorbing step: `rotate_left(acc + v, 13) XOR v`.
pub open spec fn absorb_step(acc: u64, v: u64) -> u64 {
    rotl13(acc.wrapping_add(v)) ^ v
}

/// The accumulator after absorbing the first `k` chunks of `data`.
pub open spec fn absorbed(seed: u64, data: Seq<u8>, k: nat) -> u64
    decreases k,
{
    if k == 0 {
        seed
    } else {
        absorb_step(absorbed(seed, data, (k - 1) as nat), chunk_word(data, (k - 1) as nat))
    }
}

/// The accumulator mixed before each output word: `y ^ (y >> 32)` with
/// `y = acc * SQUEEZE_MULTIPLIER`.
pub open spec fn squeeze(acc: u64) -> u64 {
    let y = acc.wrapping_mul(SQUEEZE_MULTIPLIER);
    y ^ (y >> 32u64)
}

/// The accumulator after `i` output words.
pub open spec fn kawaii_state(seed: u64, data: Seq<u8>, i: nat) -> u64
    decreases i,
{
    if i == 0 {
        absorbed(seed, data, chunk_count(data.len()))
    } else {
        squeeze(kawaii_state(seed, data, (i - 1) as nat)).wrapping_add(
            std_rng_word(seed, (i - 1) as nat),
        )
    }
}

/// Byte `k` (little-endian) of `x`.
pub open spec fn le_byte(x: u64, k: nat) -> u8 {
    (x >> ((8 * k) as u64)) as u8
}

/// The hash of `data`: the little-endian bytes of the output words, cut to
/// `size` bytes.
pub open spec fn kawaii_hash(seed: u64, size: nat, data: Seq<u8>) -> Seq<u8> {
    Seq::new(size, |j: int| le_byte(kawaii_state(seed, data, (j / 8 + 1) as nat), (j % 8) as nat))
}

/// The seeded-mix construction: a configurable output size and a 64-bit seed.
pub struct KawaiiHash {
    size: usize,
    seed: u64,
}

impl Default for KawaiiHash {
    fn default() -> (r: Self)
        ensures
            r.size() == DEFAULT_SIZE,
            r.seed() == DEFAULT_SEED,
    {
        Self::new()
    }
}

impl KawaiiHash {
    /// The output size.
    pub closed spec fn size(&self) -> nat {
        self.size as nat
    }

    /// The seed.
    pub closed spec fn seed(&self) -> u64 {
        self.seed
    }

    /// A 32-byte hash with the default seed.
    pub fn new() -> (r: Self)
        ensures
            r.size() == DEFAULT_SIZE,
            r.seed() == DEFAULT_SEED,
    {
        Self::with_size(DEFAULT_SIZE)
    }

    /// A hash of `size` bytes with the default seed.
    pub fn with_size(size: usize) -> (r: Self)
        ensures
            r.size() == size,
            r.seed() == DEFAULT_SEED,
    {
        KawaiiHash { size, seed: DEFAULT_SEED }
    }

    /// A 32-byte hash with the given seed.
    pub fn with_seed(seed: u64) -> (r: Self)
        ensures
            r.size() == DEFAULT_SIZE,
            r.seed() == seed,
    {
        KawaiiHash { size: DEFAULT_SIZE, seed }
    }

    /// A hash of `size` bytes with the given seed.
    pub fn with_size_and_seed(size: usize, seed: u64) -> (r: Self)
        ensures
            r.size() == size,
            r.seed() == seed,
    {
        KawaiiHash { size, seed }
    }
}

/// Two hashers of the same size and seed give the same hash of the same data.
pub proof fn lemma_kawaii_deterministic(a: &KawaiiHash, b: &KawaiiHash, data: Seq<u8>)
    requires
        a.size() == b.size(),
        a.seed() == b.seed(),
    ensures
        a.spec_hash(data) == b.spec_hash(data),
{
}

/// The chunk of `data` that starts at `base`, read byte by byte.
fn read_chunk(data: &[u8], base: usize) -> (r: u64)
    requires
        base < data@.len(),
    ensures
        r == le_word(data@, base as int, 8),
{
    let mut v: u64 = 0;
    let mut j: usize = 0;
    while j < 8
        invariant
            j <= 8,
            base < data@.len(),
            v == le_word(data@, base as int, j as nat),
        decreases 8 - j,
    {
        let b: u8 = if j < data.len() - base {
            data[base + j]
        } else {
            0
        };
        v = v | ((b as u64) << ((8 * j) as u64));
        j = j + 1;
    }
    v
}

/// The accumulator after absorbing every chunk of `data`.
fn absorb(seed: u64, data: &[u8]) -> (r: u64)
    ensures
        r == absorbed(seed, data@, chunk_count(data@.len())),
{
    let len = data.len();
    let count: usize = if len % 8 == 0 {
        len / 8
    } else {
        len / 8 + 1
    };
    let mut acc = seed;
    let mut k: usize = 0;
    let mut base: usize = 0;
    while k < count
        invariant
            count == chunk_count(len as nat),
            len == data@.len(),
            k <= count,
            k < count ==> base == 8 * k,
            acc == absorbed(seed, data@, k as nat),
        decreases count - k,
    {
        assert(base < len) by (nonlinear_arith)
            requires
                base == 8 * k,
                k < count,
                count == chunk_count(len as nat),
        ;
        let v = read_chunk(data, base);
        acc = rotate_left_13(acc.wrapping_add(v)) ^ v;
        k = k + 1;
        if k < count {
            base = base + 8;
        }
    }
    acc
}

/// `x` rotated left by 13 bits.
fn rotate_left_13(x: u64) -> (r: u64)
    ensures
        r == rotl13(x),
{
    (x << 13u64) | (x >> 51u64)
}

impl NekoHash for KawaiiHash {
    open spec fn spec_hash(&self, data: Seq<u8>) -> Seq<u8> {
        kawaii_hash(self.seed(), self.size(), data)
    }

    open spec fn spec_output_size(&self) -> nat {
        self.size()
    }

    open spec fn spec_name(&self) -> Seq<char> {
        "KawaiiHash"@
    }

    proof fn lemma_hash_len(&self, data: Seq<u8>) {
    }

    fn hash(&self, data: &[u8]) -> (r: Vec<u8>) {
        let size = self.size;
        let mut acc = absorb(self.seed, data);
        let mut stream = SeededRng::from_seed(self.seed);
        let mut result: Vec<u8> = Vec::new();
        while result.len() < size
            invariant
                size == self.size(),
                stream.seed() == self.seed(),
                stream.bytes_drawn() == 0,
                acc == kawaii_state(self.seed(), data@, stream.words_drawn()),
                result@.len() <= size,
                result@.len() == 8 * stream.words_drawn() || (result@.len() == size
                    && result@.len() <= 8 * stream.words_drawn()),
                forall|j: int|
                    0 <= j < result@.len() ==> #[trigger] result@[j] == le_byte(
                        kawaii_state(self.seed(), data@, (j / 8 + 1) as nat),
                        (j % 8) as nat,
                    ),
            decreases size - result@.len(),
        {
            let w = stream.next_word();
            acc = squeeze_word(acc).wrapping_add(w);
            let mut k: usize = 0;
            while k < 8
                invariant
                    k <= 8,
                    size == self.size(),
                    acc == kawaii_state(self.seed(), data@, stream.words_drawn()),
                    result@.len() <= size,
                    result@.len() == 8 * (stream.words_drawn() - 1) + k || (result@.len() == size
                        && result@.len() <= 8 * (stream.words_drawn() - 1) + k),
                    forall|j: int|
                        0 <= j < result@.len() ==> #[trigger] result@[j] == le_byte(
                            kawaii_state(self.seed(), data@, (j / 8 + 1) as nat),
                            (j % 8) as nat,
                        ),
                decreases 8 - k,
            {
                if result.len() < size {
                    result.push((acc >> ((8 * k) as u64)) as u8);
                }
                k = k + 1;
            }
        }
        result
    }

    fn identify(&self) -> (r: String) {
        String::from_str("KawaiiHash")
    }

    fn output_size(&self) -> (r: usize) {
        self.size
    }
}

/// The accumulator mixed before an output word.
fn squeeze_word(acc: u64) -> (r: u64)
    ensures
        r == squeeze(acc),
{
    let y = acc.wrapping_mul(SQUEEZE_MULTIPLIER);
    y ^ (y >> 32u64)
}

} // verus!
