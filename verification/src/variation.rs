//! Gene-level operators that draw from the random source: mutation and the
//! making of random genotypes.
use vstd::prelude::*;

use crate::genotype::Genotype;
use crate::operators::{
    complement, flags_drawn_at, flip_bits, flipped, flipped_at, lemma_flipped_extremes,
    lemma_no_swaps, partners_drawn_at, partners_in_range, swap_slots, swapped_at, swaps_applied,
};
use crate::permutation::{identity_order, is_permutation, lemma_reordered_identity};
use crate::random::RandomSource;
use crate::rate::{Rate, RATE_SCALE};

verus! {

/// `after` comes from `before` by a mutation at `rate`: a bit vector by
/// flips of the bits that a draw marks, a permutation by exchanges of each
/// slot with the partner that a draw names for it.
pub open spec fn mutated_by_draw(rate: nat, before: Genotype, after: Genotype) -> bool {
    match before {
        Genotype::Binary(bits) => after matches Genotype::Binary(mutant) && flipped_at(
            bits,
            rate,
            mutant,
        ),
        Genotype::Permuted(order) => after matches Genotype::Permuted(mutant) && swapped_at(
            order,
            rate,
            mutant,
        ),
    }
}

/// Draws `count` flags, each set with probability `rate`.
pub fn draw_flags(rng: &mut RandomSource, count: usize, rate: Rate) -> (flags: Vec<bool>)
    ensures
        flags.len() == count,
        flags_drawn_at(flags@, rate@),
{
    let mut flags: Vec<bool> = Vec::with_capacity(count);
    let mut i: usize = 0;
    while i < count
        invariant
            i <= count,
            flags.len() == i,
            rate@ == 0 ==> forall|k: int| 0 <= k < i ==> !flags[k],
            rate@ == RATE_SCALE ==> forall|k: int| 0 <= k < i ==> flags[k],
        decreases count - i,
    {
        let hit = rng.chance(rate);
        flags.push(hit);
        i = i + 1;
    }
    flags
}

/// For each of `count` slots draws, with probability `rate`, a partner slot
/// to exchange values with.
pub fn draw_partners(rng: &mut RandomSource, count: usize, rate: Rate) -> (partners: Vec<
    Option<usize>,
>)
    ensures
        partners.len() == count,
        partners_in_range(partners@, count as nat),
        partners_drawn_at(partners@, rate@),
{
    let mut partners: Vec<Option<usize>> = Vec::with_capacity(count);
    let mut i: usize = 0;
    while i < count
        invariant
            i <= count,
            partners.len() == i,
            forall|k: int|
                0 <= k < i ==> (#[trigger] partners[k] matches Some(partner) ==> partner < count),
            rate@ == 0 ==> forall|k: int| 0 <= k < i ==> partners[k] is None,
            rate@ == RATE_SCALE ==> forall|k: int| 0 <= k < i ==> partners[k] is Some,
        decreases count - i,
    {
        if rng.chance(rate) {
            let partner = rng.below(count);
            partners.push(Some(partner));
        } else {
            partners.push(None);
        }
        i = i + 1;
    }
    partners
}

/// Flips each bit with probability `rate`: at rate 0 the bits come back as
/// they are, at rate 1 all of them inverted.
pub fn mutate_bits(bits: &Vec<bool>, rate: Rate, rng: &mut RandomSource) -> (mutant: Vec<bool>)
    ensures
        mutant.len() == bits.len(),
        flipped_at(bits@, rate@, mutant@),
        rate@ == 0 ==> mutant@ == bits@,
        rate@ == RATE_SCALE ==> mutant@ == complement(bits@),
{
    let flips = draw_flags(rng, bits.len(), rate);
    proof {
        lemma_flipped_extremes(bits@, flips@);
    }
    let mutant = flip_bits(bits, &flips);
    assert(flips@.len() == bits@.len() && flags_drawn_at(flips@, rate@) && mutant@ == flipped(
        bits@,
        flips@,
    ));
    mutant
}

/// With probability `rate`, exchanges the value of each slot, in turn, with
/// that of a slot drawn at random: at rate 0 the order comes back as it is,
/// and a permutation stays a permutation at any rate.
pub fn mutate_order(order: &Vec<usize>, rate: Rate, rng: &mut RandomSource) -> (mutant: Vec<usize>)
    ensures
        mutant.len() == order.len(),
        is_permutation(order@) ==> is_permutation(mutant@),
        rate@ == 0 ==> mutant@ == order@,
        swapped_at(order@, rate@, mutant@),
{
    let partners = draw_partners(rng, order.len(), rate);
    proof {
        if rate@ == 0 {
            lemma_no_swaps(order@, partners@, order.len() as nat);
        }
    }
    let mutant = swap_slots(order, &partners);
    assert(partners@.len() == order@.len() && partners_in_range(partners@, order@.len())
        && partners_drawn_at(partners@, rate@) && mutant@ == swaps_applied(
        order@,
        partners@,
        order@.len(),
    ));
    mutant
}

/// `dim` bits, each drawn by a fair coin.
pub fn random_bits(dim: usize, rng: &mut RandomSource) -> (bits: Vec<bool>)
    ensures
        bits.len() == dim,
{
    let mut bits: Vec<bool> = Vec::with_capacity(dim);
    let mut i: usize = 0;
    while i < dim
        invariant
            i <= dim,
            bits.len() == i,
        decreases dim - i,
    {
        let bit = rng.coin();
        bits.push(bit);
        i = i + 1;
    }
    bits
}

/// A permutation of `0..dim`, drawn by shuffling the identity.
pub fn random_order(dim: usize, rng: &mut RandomSource) -> (order: Vec<usize>)
    ensures
        order.len() == dim,
        is_permutation(order@),
{
    let mut order = identity_order(dim);
    rng.shuffle(&mut order);
    proof {
        lemma_reordered_identity(order@, dim as nat);
    }
    order
}

} // verus!
