//! Probabilities as exact fractions.
use vstd::prelude::*;

verus! {

/// The denominator of every [`Rate`]: a rate counts billionths.
pub const RATE_SCALE: u32 = 1_000_000_000;

/// A probability between 0 and 1, held as a number of billionths.
#[derive(Clone, Copy, Debug)]
pub struct Rate {
    parts: u32,
}

impl View for Rate {
    type V = nat;

    /// The number of billionths.
    closed spec fn view(&self) -> nat {
        self.parts as nat
    }
}

impl Rate {
    #[verifier::type_invariant]
    spec fn within_scale(self) -> bool {
        self.parts <= RATE_SCALE
    }

    /// The rate of `parts` billionths, or `None` where that would exceed 1.
    pub fn new(parts: u32) -> (rate: Option<Rate>)
        ensures
            rate.is_some() == (parts <= RATE_SCALE),
            rate matches Some(r) ==> r@ == parts,
    {
        if parts <= RATE_SCALE {
            Some(Rate { parts })
        } else {
            None
        }
    }

    /// The probability 0: never.
    pub fn zero() -> (rate: Rate)
        ensures
            rate@ == 0,
    {
        Rate { parts: 0 }
    }

    /// The probability of a fair coin.
    pub fn half() -> (rate: Rate)
        ensures
            rate@ == RATE_SCALE / 2,
    {
        Rate { parts: RATE_SCALE / 2 }
    }

    /// The probability 1: always.
    pub fn one() -> (rate: Rate)
        ensures
            rate@ == RATE_SCALE,
    {
        Rate { parts: RATE_SCALE }
    }

    /// The number of billionths; never more than [`RATE_SCALE`].
    pub fn parts(&self) -> (parts: u32)
        ensures
            parts == self@,
            parts <= RATE_SCALE,
    {
        proof {
            use_type_invariant(self);
        }
        self.parts
    }
}


} // verus!
