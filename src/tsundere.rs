//! The multi-round diffusion construction: a fixed 32-byte hash.
use crate::magical::rotl3;
use crate::prng::{std_rng_byte, SeededRng};
use crate::NekoHash;
use vstd::prelude::*;

verus! {

/// The seed of the pseudo-random stream of every `TsundereHash`.
pub const TSUNDERE_SEED: u64 = 0x544e554e44455245;

/// The number of rounds of a `TsundereHash` made without one.
pub const DEFAULT_ROUNDS: usize = 8;

/// The output size of every `TsundereHash`.
pub const TSUNDERE_SIZE: usize = 32;

/// The multiplier of the avalanche pass.
pub const AVALANCHE_MULTIPLIER: u8 = 0xB5;

/// The all-zero working buffer.
pub open spec fn zero_state() -> Seq<u8> {
    Seq::new(32, |i: int| 0u8)
}

/// The buffer after the first `n` bytes of `data` were XORed into it, byte
/// `i` into slot `i % 32`.
pub open spec fn xor_absorbed(start: Seq<u8>, data: Seq<u8>, n: nat) -> Seq<u8>
    decreases n,
{
    if n == 0 {
        start
    } else {
        let prev = xor_absorbed(start, data, (n - 1) as nat);
        let idx = (n - 1) % 32;
        prev.update(idx, prev[idx] ^ data[n - 1])
    }
}

/// The scramble pass: add a stream byte, then rotate left by 3. The stream
/// has already handed out `drawn` bytes.
pub open spec fn scramble_pass(b: Seq<u8>, drawn: nat) -> Seq<u8> {
    Seq::new(32, |i: int| rotl3(b[i].wrapping_add(std_rng_byte(TSUNDERE_SEED, drawn + i as nat))))
}

/// The forward diffusion after its first `k` steps have run, step `i`
/// (for `i` in `1..k`) doing `b[i] ^= b[i - 1]`.
pub open spec fn forward_diffused(b: Seq<u8>, k: nat) -> Seq<u8>
    decreases k,
{
    if k <= 1 {
        b
    } else {
        let prev = forward_diffused(b, (k - 1) as nat);
        prev.update(k - 1, prev[k - 1] ^ prev[k - 2])
    }
}

/// The backward diffusion after its first `m` steps have run, the steps
/// going down from index 30 and each doing `b[i] ^= b[i + 1]`.
pub open spec fn backward_diffused(b: Seq<u8>, m: nat) -> Seq<u8>
    decreases m,
{
    if m == 0 {
        b
    } else {
        let prev = backward_diffused(b, (m - 1) as nat);
        let i = 31 - m;
        prev.update(i, prev[i] ^ prev[i + 1])
    }
}

/// The avalanche pass: multiply by `0xB5`, then XOR a stream byte. The
/// stream has already handed out `drawn` bytes.
pub open spec fn avalanche_pass(b: Seq<u8>, drawn: nat) -> Seq<u8> {
    Seq::new(
        32,
        |i: int| b[i].wrapping_mul(AVALANCHE_MULTIPLIER) ^ std_rng_byte(TSUNDERE_SEED, drawn + i as nat),
    )
}

/// One round, the `r`-th (counting from zero): its four passes in order.
pub open spec fn tsundere_round(b: Seq<u8>, r: nat) -> Seq<u8> {
    avalanche_pass(
        backward_diffused(forward_diffused(scramble_pass(b, 64 * r), 32), 31),
        64 * r + 32,
    )
}

/// The buffer after the first `k` rounds.
pub open spec fn after_rounds(b: Seq<u8>, k: nat) -> Seq<u8>
    decreases k,
{
    if k == 0 {
        b
    } else {
        tsundere_round(after_rounds(b, (k - 1) as nat), (k - 1) as nat)
    }
}

/// The hash of `data` with `rounds` rounds.
pub open spec fn tsundere_hash(rounds: nat, data: Seq<u8>) -> Seq<u8> {
    after_rounds(xor_absorbed(zero_state(), data, data.len()), rounds)
}

proof fn lemma_xor_absorbed_len(start: Seq<u8>, data: Seq<u8>, n: nat)
    requires
        start.len() == 32,
        n <= data.len(),
    ensures
        xor_absorbed(start, data, n).len() == 32,
    decreases n,
{
    if n > 0 {
        lemma_xor_absorbed_len(start, data, (n - 1) as nat);
    }
}

proof fn lemma_after_rounds_len(b: Seq<u8>, k: nat)
    requires
        b.len() == 32,
    ensures
        after_rounds(b, k).len() == 32,
    decreases k,
{
    if k > 0 {
        lemma_after_rounds_len(b, (k - 1) as nat);
    }
}

/// The multi-round diffusion construction.
pub struct TsundereHash {
    rounds: usize,
    state: Vec<u8>,
}

impl Default for TsundereHash {
    fn default() -> (r: Self)
        ensures
            r.rounds() == DEFAULT_ROUNDS,
    {
        Self::new()
    }
}

impl TsundereHash {
    #[verifier::type_invariant]
    spec fn baseline_is_zero(&self) -> bool {
        self.state@ == zero_state()
    }

    /// The number of rounds.
    pub closed spec fn rounds(&self) -> nat {
        self.rounds as nat
    }

    /// A hash with the default number of rounds.
    pub fn new() -> (r: Self)
        ensures
            r.rounds() == DEFAULT_ROUNDS,
    {
        Self::with_rounds(DEFAULT_ROUNDS)
    }

    /// A hash with the given number of rounds.
    pub fn with_rounds(rounds: usize) -> (r: Self)
        ensures
            r.rounds() == rounds,
    {
        TsundereHash { rounds, state: zeros() }
    }
}

/// Two hashers of the same number of rounds give the same hash of the same
/// data.
pub proof fn lemma_tsundere_deterministic(a: &TsundereHash, b: &TsundereHash, data: Seq<u8>)
    requires
        a.rounds() == b.rounds(),
    ensures
        a.spec_hash(data) == b.spec_hash(data),
{
}

/// A fresh all-zero working buffer.
fn zeros() -> (r: Vec<u8>)
    ensures
        r@ == zero_state(),
{
    let mut r: Vec<u8> = Vec::new();
    let mut i: usize = 0;
    while i < 32
        invariant
            i <= 32,
            r@ == Seq::new(i as nat, |j: int| 0u8),
        decreases 32 - i,
    {
        r.push(0);
        i = i + 1;
        assert(r@ =~= Seq::new(i as nat, |j: int| 0u8));
    }
    r
}

/// Runs the `r`-th round on `b`; `stream` has handed out `64 * r` bytes.
fn run_round(b: &mut Vec<u8>, stream: &mut SeededRng, Ghost(r): Ghost<nat>)
    requires
        old(b)@.len() == 32,
        old(stream).seed() == TSUNDERE_SEED,
        old(stream).words_drawn() == 0,
        old(stream).bytes_drawn() == 64 * r,
    ensures
        final(b)@ == tsundere_round(old(b)@, r),
        final(stream).seed() == TSUNDERE_SEED,
        final(stream).words_drawn() == 0,
        final(stream).bytes_drawn() == 64 * r + 64,
{
    let ghost b0 = b@;
    let mut i: usize = 0;
    while i < 32
        invariant
            i <= 32,
            b@.len() == 32,
            stream.seed() == TSUNDERE_SEED,
            stream.words_drawn() == 0,
            stream.bytes_drawn() == 64 * r + i,
            forall|k: int| i <= k < 32 ==> #[trigger] b@[k] == b0[k],
            forall|k: int| 0 <= k < i ==> #[trigger] b@[k] == scramble_pass(b0, 64 * r)[k],
        decreases 32 - i,
    {
        let x = stream.next_byte();
        let y = b[i].wrapping_add(x);
        b.set(i, (y << 3u8) | (y >> 5u8));
        i = i + 1;
    }
    assert(b@ =~= scramble_pass(b0, 64 * r));
    let ghost b1 = b@;
    let mut i: usize = 1;
    while i < 32
        invariant
            1 <= i <= 32,
            b1.len() == 32,
            b@ == forward_diffused(b1, i as nat),
            b@.len() == 32,
        decreases 32 - i,
    {
        let x = b[i] ^ b[i - 1];
        b.set(i, x);
        i = i + 1;
    }
    let ghost b2 = b@;
    let mut m: usize = 0;
    while m < 31
        invariant
            m <= 31,
            b2.len() == 32,
            b@ == backward_diffused(b2, m as nat),
            b@.len() == 32,
        decreases 31 - m,
    {
        let i = 30 - m;
        let x = b[i] ^ b[i + 1];
        b.set(i, x);
        m = m + 1;
    }
    let ghost b3 = b@;
    let mut i: usize = 0;
    while i < 32
        invariant
            i <= 32,
            b@.len() == 32,
            b3.len() == 32,
            stream.seed() == TSUNDERE_SEED,
            stream.words_drawn() == 0,
            stream.bytes_drawn() == 64 * r + 32 + i,
            forall|k: int| i <= k < 32 ==> #[trigger] b@[k] == b3[k],
            forall|k: int| 0 <= k < i ==> #[trigger] b@[k] == avalanche_pass(b3, 64 * r + 32)[k],
        decreases 32 - i,
    {
        let x = stream.next_byte();
        b.set(i, b[i].wrapping_mul(AVALANCHE_MULTIPLIER) ^ x);
        i = i + 1;
    }
    assert(b@ =~= avalanche_pass(b3, 64 * r + 32));
}

impl NekoHash for TsundereHash {
    open spec fn spec_hash(&self, data: Seq<u8>) -> Seq<u8> {
        tsundere_hash(self.rounds(), data)
    }

    open spec fn spec_output_size(&self) -> nat {
        TSUNDERE_SIZE as nat
    }

    open spec fn spec_name(&self) -> Seq<char> {
        "TsundereHash"@
    }

    proof fn lemma_hash_len(&self, data: Seq<u8>) {
        lemma_xor_absorbed_len(zero_state(), data, data.len());
        lemma_after_rounds_len(xor_absorbed(zero_state(), data, data.len()), self.rounds());
    }

    fn hash(&self, data: &[u8]) -> (r: Vec<u8>) {
        proof {
            use_type_invariant(self);
        }
        let mut result = self.state.clone();
        let mut stream = SeededRng::from_seed(TSUNDERE_SEED);
        let mut i: usize = 0;
        while i < data.len()
            invariant
                i <= data@.len(),
                result@ == xor_absorbed(zero_state(), data@, i as nat),
                result@.len() == 32,
            decreases data@.len() - i,
        {
            let idx = i % 32;
            let x = result[idx] ^ data[i];
            result.set(idx, x);
            i = i + 1;
        }
        let ghost absorbed = result@;
        let mut r: usize = 0;
        while r < self.rounds
            invariant
                r <= self.rounds(),
                absorbed.len() == 32,
                result@ == after_rounds(absorbed, r as nat),
                result@.len() == 32,
                stream.seed() == TSUNDERE_SEED,
                stream.words_drawn() == 0,
                stream.bytes_drawn() == 64 * r,
            decreases self.rounds() - r,
        {
            run_round(&mut result, &mut stream, Ghost(r as nat));
            proof {
                lemma_after_rounds_len(absorbed, (r + 1) as nat);
            }
            r = r + 1;
        }
        result
    }

    fn identify(&self) -> (r: String) {
        String::from_str("TsundereHash")
    }

    fn output_size(&self) -> (r: usize) {
        TSUNDERE_SIZE
    }

    fn reset(&mut self) {
        self.state = zeros();
    }
}

} // verus!
