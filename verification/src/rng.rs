//! Deterministic pseudo-random words. The standard generator of the rand
//! crate, seeded from a 64-bit seed, yields a stream of words that is a
//! function of the seed alone; the stream is named here so that everything
//! generated from it is provably deterministic.

use vstd::prelude::*;

use rand::Rng;
use rand::SeedableRng;

verus! {

#[verifier::external_type_specification]
#[verifier::external_body]
pub struct ExStdRng(rand::rngs::StdRng);

/// The word at position `index` of the stream that rand's standard
/// generator yields when seeded from `seed`.
pub uninterp spec fn rand_word(seed: u64, index: int) -> u64;

/// Relies on rand's StdRng::seed_from_u64: builds the standard generator
/// from a 64-bit seed.
#[verifier::external_body]
fn stdrng_from_seed(seed: u64) -> rand::rngs::StdRng {
    rand::rngs::StdRng::seed_from_u64(seed)
}

/// A seeded generator, tracking the seed it was built from and how many
/// words it has yielded.
pub struct SeededRng {
    inner: rand::rngs::StdRng,
    seed: Ghost<u64>,
    drawn: Ghost<int>,
}

impl SeededRng {
    /// The seed this generator was built from.
    pub closed spec fn seed(&self) -> u64 {
        self.seed@
    }

    /// How many words this generator has yielded so far.
    pub closed spec fn drawn(&self) -> int {
        self.drawn@
    }

    /// A generator seeded from `seed` that has yielded nothing yet.
    pub fn from_seed(seed: u64) -> (r: SeededRng)
        ensures
            r.seed() == seed,
            r.drawn() == 0,
    {
        SeededRng { inner: stdrng_from_seed(seed), seed: Ghost(seed), drawn: Ghost(0int) }
    }

    /// Draw the next word of the stream. Relies on rand's StdRng: its word
    /// stream after seed_from_u64 is a function of the seed alone.
    #[verifier::external_body]
    pub fn next_u64(&mut self) -> (r: u64)
        ensures
            final(self).seed() == old(self).seed(),
            final(self).drawn() == old(self).drawn() + 1,
            r == rand_word(old(self).seed(), old(self).drawn()),
    {
        self.inner.next_u64()
    }

    /// Draw the next word reduced below `bound`.
    pub fn next_below(&mut self, bound: u64) -> (r: u64)
        requires
            bound >= 1,
        ensures
            final(self).seed() == old(self).seed(),
            final(self).drawn() == old(self).drawn() + 1,
            r == rand_word(old(self).seed(), old(self).drawn()) % bound,
            r < bound,
    {
        let w = self.next_u64();
        w % bound
    }
}

} // verus!
