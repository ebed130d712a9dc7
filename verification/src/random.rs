//! The random source that every stochastic step draws from.
use rand::seq::SliceRandom;
use rand::Rng;
use rand::SeedableRng;
use vstd::prelude::*;

use crate::rate::Rate;
use crate::rate::RATE_SCALE;

verus! {

#[verifier::external_type_specification]
#[verifier::external_body]
pub struct ExStdRng(rand::rngs::StdRng);

/// `rand::SeedableRng::seed_from_u64` for `StdRng`: a generator whose whole
/// stream is fixed by `seed`. Nothing is claimed of the generator.
#[verifier::external_body]
fn generator_from_seed(seed: u64) -> (rng: rand::rngs::StdRng) {
    rand::rngs::StdRng::seed_from_u64(seed)
}

/// `rand::SeedableRng::from_rng` for `StdRng`, handed `rand::rngs::OsRng`:
/// a generator seeded by the operating system, or nothing where the system
/// has no entropy to give. Nothing is claimed of the outcome.
#[verifier::external_body]
fn generator_from_entropy() -> (rng: Option<rand::rngs::StdRng>) {
    rand::rngs::StdRng::from_rng(rand::rngs::OsRng).ok()
}

/// `rand::Rng::gen_range` on a half-open range of `usize`. The call panics on
/// an empty range, which `requires` leaves out; the value drawn lies in the
/// range.
#[verifier::external_body]
fn draw_in_range(rng: &mut rand::rngs::StdRng, low: usize, high: usize) -> (value: usize)
    requires
        low < high,
    ensures
        low <= value < high,
{
    rng.gen_range(low..high)
}

/// `rand::Rng::gen_ratio`: true with probability `numerator / denominator`.
/// The call panics on a zero denominator and on a numerator above it, which
/// `requires` leaves out. A zero numerator never gives true, and a numerator
/// equal to the denominator always does.
#[verifier::external_body]
fn draw_ratio(rng: &mut rand::rngs::StdRng, numerator: u32, denominator: u32) -> (hit: bool)
    requires
        denominator > 0,
        numerator <= denominator,
    ensures
        numerator == 0 ==> !hit,
        numerator == denominator ==> hit,
{
    rng.gen_ratio(numerator, denominator)
}

/// `rand::Rng::gen` at type `bool`: a fair coin. Nothing is claimed of the
/// outcome.
#[verifier::external_body]
fn draw_bool(rng: &mut rand::rngs::StdRng) -> (heads: bool) {
    rng.gen()
}

/// `rand::seq::SliceRandom::shuffle` on a slice of `usize`: it swaps items in
/// place, so the items after the call are those before it, each as often.
#[verifier::external_body]
fn shuffle_items(rng: &mut rand::rngs::StdRng, items: &mut Vec<usize>)
    ensures
        final(items)@.to_multiset() == old(items)@.to_multiset(),
{
    items.shuffle(rng)
}

/// An owned random number generator. Two sources made from the same seed
/// give the same draws in the same order.
pub struct RandomSource {
    rng: rand::rngs::StdRng,
}

impl RandomSource {
    /// A source whose draws are fixed by `seed`.
    pub fn seeded(seed: u64) -> (source: RandomSource) {
        RandomSource { rng: generator_from_seed(seed) }
    }

    /// A source seeded by the operating system, or nothing where the system
    /// has no entropy to give.
    pub fn from_entropy() -> (source: Option<RandomSource>) {
        match generator_from_entropy() {
            Some(rng) => Some(RandomSource { rng }),
            None => None,
        }
    }

    /// A number below `bound`.
    pub fn below(&mut self, bound: usize) -> (value: usize)
        requires
            bound > 0,
        ensures
            value < bound,
    {
        draw_in_range(&mut self.rng, 0, bound)
    }

    /// A number from `low` up to, but not including, `high`.
    pub fn between(&mut self, low: usize, high: usize) -> (value: usize)
        requires
            low < high,
        ensures
            low <= value < high,
    {
        draw_in_range(&mut self.rng, low, high)
    }

    /// True with probability `rate`: never at rate 0, always at rate 1.
    pub fn chance(&mut self, rate: Rate) -> (hit: bool)
        ensures
            rate@ == 0 ==> !hit,
            rate@ == RATE_SCALE ==> hit,
    {
        draw_ratio(&mut self.rng, rate.parts(), RATE_SCALE)
    }

    /// A fair coin.
    pub fn coin(&mut self) -> (heads: bool) {
        draw_bool(&mut self.rng)
    }

    /// Reorders `items` at random.
    pub fn shuffle(&mut self, items: &mut Vec<usize>)
        ensures
            final(items)@.to_multiset() == old(items)@.to_multiset(),
    {
        shuffle_items(&mut self.rng, items)
    }
}

} // verus!
