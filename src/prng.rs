//! Seeded pseudo-random streams drawn from `rand`'s `StdRng`.
//!
//! The hash constructions need a stream of bytes (or of words) that depends
//! on a seed alone. A generator records the seed it was made from and how
//! many values it has handed out, so that each value drawn is named by the
//! pair.
use rand::rngs::StdRng;
use rand::Rng;
use rand::SeedableRng;
use vstd::prelude::*;

verus! {

#[verifier::external_type_specification]
#[verifier::external_body]
pub struct ExStdRng(StdRng);

/// The byte that the `index`-th call (counting from zero) of `Rng::gen::<u8>`
/// returns on a generator made by `StdRng::seed_from_u64(seed)` that has only
/// been used for such calls.
pub uninterp spec fn std_rng_byte(seed: u64, index: nat) -> u8;

/// The word that the `index`-th call (counting from zero) of `Rng::gen::<u64>`
/// returns on a generator made by `StdRng::seed_from_u64(seed)` that has only
/// been used for such calls.
pub uninterp spec fn std_rng_word(seed: u64, index: nat) -> u64;

/// A seeded `StdRng` that hands out either bytes or words, never both, so
/// that each value drawn is named by the seed and the number drawn before it.
pub(crate) struct SeededRng {
    rng: StdRng,
    seed: Ghost<u64>,
    bytes: Ghost<nat>,
    words: Ghost<nat>,
}

impl SeededRng {
    /// The seed the generator was made from.
    pub(crate) closed spec fn seed(&self) -> u64 {
        self.seed@
    }

    /// How many bytes the generator has handed out.
    pub(crate) closed spec fn bytes_drawn(&self) -> nat {
        self.bytes@
    }

    /// How many words the generator has handed out.
    pub(crate) closed spec fn words_drawn(&self) -> nat {
        self.words@
    }

    /// Relies on `StdRng::seed_from_u64`: a fresh generator for `seed`.
    #[verifier::external_body]
    pub(crate) fn from_seed(seed: u64) -> (r: Self)
        ensures
            r.seed() == seed,
            r.bytes_drawn() == 0,
            r.words_drawn() == 0,
    {
        SeededRng {
            rng: StdRng::seed_from_u64(seed),
            seed: Ghost(seed),
            bytes: Ghost(0),
            words: Ghost(0),
        }
    }

    /// Relies on `Rng::gen::<u8>`: the next byte of the seeded stream.
    #[verifier::external_body]
    pub(crate) fn next_byte(&mut self) -> (b: u8)
        requires
            old(self).words_drawn() == 0,
        ensures
            b == std_rng_byte(old(self).seed(), old(self).bytes_drawn()),
            final(self).seed() == old(self).seed(),
            final(self).bytes_drawn() == old(self).bytes_drawn() + 1,
            final(self).words_drawn() == 0,
    {
        let b = self.rng.gen::<u8>();
        self.bytes = Ghost(self.bytes@ + 1);
        b
    }

    /// Relies on `Rng::gen::<u64>`: the next word of the seeded stream.
    #[verifier::external_body]
    pub(crate) fn next_word(&mut self) -> (w: u64)
        requires
            old(self).bytes_drawn() == 0,
        ensures
            w == std_rng_word(old(self).seed(), old(self).words_drawn()),
            final(self).seed() == old(self).seed(),
            final(self).words_drawn() == old(self).words_drawn() + 1,
            final(self).bytes_drawn() == 0,
    {
        let w = self.rng.gen::<u64>();
        self.words = Ghost(self.words@ + 1);
        w
    }
}

} // verus!
