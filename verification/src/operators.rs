//! Gene-level variation operators that work slot by slot: exchanging genes
//! between two parents and flipping bits.
use vstd::prelude::*;

use crate::permutation::{is_permutation, lemma_swap_keeps_permutation, swapped};
use crate::rate::RATE_SCALE;

verus! {

/// The length that two parents have in common.
pub open spec fn common_len<T>(first: Seq<T>, second: Seq<T>) -> nat {
    if first.len() <= second.len() {
        first.len()
    } else {
        second.len()
    }
}

/// The child that takes the slots `from..to` from `other` and every other
/// slot from `own`.
pub open spec fn exchanged<T>(own: Seq<T>, other: Seq<T>, from: int, to: int) -> Seq<T> {
    Seq::new(
        common_len(own, other),
        |i: int|
            if from <= i < to {
                other[i]
            } else {
                own[i]
            },
    )
}

/// The child that takes slot `i` from `own` where `keep[i]` holds and from
/// `other` where it does not.
pub open spec fn chosen<T>(own: Seq<T>, other: Seq<T>, keep: Seq<bool>) -> Seq<T> {
    Seq::new(
        common_len(own, other),
        |i: int|
            if keep[i] {
                own[i]
            } else {
                other[i]
            },
    )
}

/// `bits` with the bit at each slot marked in `flips` inverted.
pub open spec fn flipped(bits: Seq<bool>, flips: Seq<bool>) -> Seq<bool> {
    Seq::new(bits.len(), |i: int| bits[i] != flips[i])
}

/// Every bit of `bits` inverted.
pub open spec fn complement(bits: Seq<bool>) -> Seq<bool> {
    Seq::new(bits.len(), |i: int| !bits[i])
}

/// `order` after each of its first `steps` slots, in turn, has exchanged its
/// value with the partner slot named for it, where one is named.
pub open spec fn swaps_applied(order: Seq<usize>, partners: Seq<Option<usize>>, steps: nat) -> Seq<
    usize,
>
    decreases steps,
{
    if steps == 0 {
        order
    } else {
        let before = swaps_applied(order, partners, (steps - 1) as nat);
        match partners[steps - 1] {
            Some(partner) => swapped(before, steps - 1, partner as int),
            None => before,
        }
    }
}

/// Partners as a draw at `rate` names them: none at rate 0, one for each
/// slot at rate 1.
pub open spec fn partners_drawn_at(partners: Seq<Option<usize>>, rate: nat) -> bool {
    &&& rate == 0 ==> forall|i: int| 0 <= i < partners.len() ==> partners[i] is None
    &&& rate == RATE_SCALE ==> forall|i: int| 0 <= i < partners.len() ==> partners[i] is Some
}

/// Flags as a draw at `rate` sets them: none at rate 0, all at rate 1.
pub open spec fn flags_drawn_at(flags: Seq<bool>, rate: nat) -> bool {
    &&& rate == 0 ==> forall|i: int| 0 <= i < flags.len() ==> !flags[i]
    &&& rate == RATE_SCALE ==> forall|i: int| 0 <= i < flags.len() ==> flags[i]
}

/// `mutant` comes from `bits` by flipping the bits that some draw at `rate`
/// marks.
pub open spec fn flipped_at(bits: Seq<bool>, rate: nat, mutant: Seq<bool>) -> bool {
    exists|flips: Seq<bool>|
        flips.len() == bits.len() && flags_drawn_at(flips, rate) && mutant == #[trigger] flipped(
            bits,
            flips,
        )
}

/// `mutant` comes from `order` by exchanges of slots: each slot, in turn,
/// with the partner that some draw at `rate` names for it.
pub open spec fn swapped_at(order: Seq<usize>, rate: nat, mutant: Seq<usize>) -> bool {
    exists|partners: Seq<Option<usize>>|
        partners.len() == order.len() && partners_in_range(partners, order.len())
            && partners_drawn_at(partners, rate) && mutant == #[trigger] swaps_applied(
            order,
            partners,
            order.len(),
        )
}

/// Every partner that is named is a slot of an order of length `len`.
pub open spec fn partners_in_range(partners: Seq<Option<usize>>, len: nat) -> bool {
    forall|i: int|
        0 <= i < partners.len() ==> (#[trigger] partners[i] matches Some(partner) ==> partner < len)
}

/// Every gene of a child is the gene that one of its parents holds at the
/// same slot.
pub open spec fn drawn_from_parents<T>(child: Seq<T>, first: Seq<T>, second: Seq<T>) -> bool {
    &&& child.len() == common_len(first, second)
    &&& forall|i: int|
        0 <= i < child.len() ==> #[trigger] child[i] == first[i] || child[i] == second[i]
}

/// The two children split each slot between them: one holds the first
/// parent's gene and the other the second parent's.
pub open spec fn complementary<T>(
    child_1: Seq<T>,
    child_2: Seq<T>,
    first: Seq<T>,
    second: Seq<T>,
) -> bool {
    &&& child_1.len() == common_len(first, second)
    &&& child_2.len() == common_len(first, second)
    &&& forall|i: int|
        0 <= i < child_1.len() ==> (#[trigger] child_1[i] == first[i] && child_2[i] == second[i])
            || (child_1[i] == second[i] && child_2[i] == first[i])
}

/// Exchanging a range of slots introduces no gene that the parents lack, and
/// the two children are each other's complement.
pub proof fn lemma_exchanged_from_parents<T>(first: Seq<T>, second: Seq<T>, from: int, to: int)
    ensures
        drawn_from_parents(exchanged(first, second, from, to), first, second),
        drawn_from_parents(exchanged(second, first, from, to), first, second),
        complementary(
            exchanged(first, second, from, to),
            exchanged(second, first, from, to),
            first,
            second,
        ),
{
}

/// Choosing slot by slot introduces no gene that the parents lack, and the
/// two children are each other's complement.
pub proof fn lemma_chosen_from_parents<T>(first: Seq<T>, second: Seq<T>, keep: Seq<bool>)
    ensures
        drawn_from_parents(chosen(first, second, keep), first, second),
        drawn_from_parents(chosen(second, first, keep), first, second),
        complementary(chosen(first, second, keep), chosen(second, first, keep), first, second),
{
}

/// No flip leaves the bits as they are; a flip at every slot gives the
/// complement.
pub proof fn lemma_flipped_extremes(bits: Seq<bool>, flips: Seq<bool>)
    requires
        flips.len() == bits.len(),
    ensures
        (forall|i: int| 0 <= i < flips.len() ==> !flips[i]) ==> flipped(bits, flips) == bits,
        (forall|i: int| 0 <= i < flips.len() ==> flips[i]) ==> flipped(bits, flips) == complement(
            bits,
        ),
{
    if forall|i: int| 0 <= i < flips.len() ==> !flips[i] {
        assert(flipped(bits, flips) =~= bits);
    }
    if forall|i: int| 0 <= i < flips.len() ==> flips[i] {
        assert(flipped(bits, flips) =~= complement(bits));
    }
}

/// Exchanges of slots keep the length, and turn a permutation into a
/// permutation.
pub proof fn lemma_swaps_keep_permutation(
    order: Seq<usize>,
    partners: Seq<Option<usize>>,
    steps: nat,
)
    requires
        steps <= order.len(),
        steps <= partners.len(),
        partners_in_range(partners, order.len()),
    ensures
        swaps_applied(order, partners, steps).len() == order.len(),
        is_permutation(order) ==> is_permutation(swaps_applied(order, partners, steps)),
    decreases steps,
{
    if steps > 0 {
        lemma_swaps_keep_permutation(order, partners, (steps - 1) as nat);
        let before = swaps_applied(order, partners, (steps - 1) as nat);
        match partners[steps - 1] {
            Some(partner) => {
                if is_permutation(order) {
                    lemma_swap_keeps_permutation(before, steps - 1, partner as int);
                }
            },
            None => {},
        }
    }
}

/// Where no partner is named, nothing moves.
pub proof fn lemma_no_swaps(order: Seq<usize>, partners: Seq<Option<usize>>, steps: nat)
    requires
        steps <= partners.len(),
        forall|i: int| 0 <= i < partners.len() ==> partners[i] is None,
    ensures
        swaps_applied(order, partners, steps) == order,
    decreases steps,
{
    if steps > 0 {
        lemma_no_swaps(order, partners, (steps - 1) as nat);
    }
}

/// The two children of `first` and `second` that exchange the slots
/// `from..to`.
pub fn exchange_range<T: Copy>(first: &Vec<T>, second: &Vec<T>, from: usize, to: usize) -> (children:
    (Vec<T>, Vec<T>))
    ensures
        children.0@ == exchanged(first@, second@, from as int, to as int),
        children.1@ == exchanged(second@, first@, from as int, to as int),
{
    let n = if first.len() <= second.len() {
        first.len()
    } else {
        second.len()
    };
    let mut child_1: Vec<T> = Vec::with_capacity(n);
    let mut child_2: Vec<T> = Vec::with_capacity(n);
    let mut i: usize = 0;
    while i < n
        invariant
            i <= n,
            n == common_len(first@, second@),
            child_1.len() == i,
            child_2.len() == i,
            forall|k: int|
                0 <= k < i ==> child_1[k] == exchanged(first@, second@, from as int, to as int)[k],
            forall|k: int|
                0 <= k < i ==> child_2[k] == exchanged(second@, first@, from as int, to as int)[k],
        decreases n - i,
    {
        if from <= i && i < to {
            child_1.push(second[i]);
            child_2.push(first[i]);
        } else {
            child_1.push(first[i]);
            child_2.push(second[i]);
        }
        i = i + 1;
    }
    assert(child_1@ =~= exchanged(first@, second@, from as int, to as int));
    assert(child_2@ =~= exchanged(second@, first@, from as int, to as int));
    (child_1, child_2)
}

/// The two children of `first` and `second` of which the first keeps the
/// slots marked in `keep` and takes the others from `second`, and the second
/// does the reverse.
pub fn exchange_unmarked<T: Copy>(first: &Vec<T>, second: &Vec<T>, keep: &Vec<bool>) -> (children:
    (Vec<T>, Vec<T>))
    requires
        keep.len() >= common_len(first@, second@),
    ensures
        children.0@ == chosen(first@, second@, keep@),
        children.1@ == chosen(second@, first@, keep@),
{
    let n = if first.len() <= second.len() {
        first.len()
    } else {
        second.len()
    };
    let mut child_1: Vec<T> = Vec::with_capacity(n);
    let mut child_2: Vec<T> = Vec::with_capacity(n);
    let mut i: usize = 0;
    while i < n
        invariant
            i <= n,
            n == common_len(first@, second@),
            keep.len() >= n,
            child_1.len() == i,
            child_2.len() == i,
            forall|k: int| 0 <= k < i ==> child_1[k] == chosen(first@, second@, keep@)[k],
            forall|k: int| 0 <= k < i ==> child_2[k] == chosen(second@, first@, keep@)[k],
        decreases n - i,
    {
        if keep[i] {
            child_1.push(first[i]);
            child_2.push(second[i]);
        } else {
            child_1.push(second[i]);
            child_2.push(first[i]);
        }
        i = i + 1;
    }
    assert(child_1@ =~= chosen(first@, second@, keep@));
    assert(child_2@ =~= chosen(second@, first@, keep@));
    (child_1, child_2)
}

/// `bits` with the bit at each slot marked in `flips` inverted.
pub fn flip_bits(bits: &Vec<bool>, flips: &Vec<bool>) -> (mutant: Vec<bool>)
    requires
        flips.len() == bits.len(),
    ensures
        mutant@ == flipped(bits@, flips@),
{
    let n = bits.len();
    let mut mutant: Vec<bool> = Vec::with_capacity(n);
    let mut i: usize = 0;
    while i < n
        invariant
            i <= n,
            n == bits.len(),
            n == flips.len(),
            mutant.len() == i,
            forall|k: int| 0 <= k < i ==> mutant[k] == (bits[k] != flips[k]),
        decreases n - i,
    {
        mutant.push(bits[i] != flips[i]);
        i = i + 1;
    }
    assert(mutant@ =~= flipped(bits@, flips@));
    mutant
}

/// `order` after each slot, in turn, has exchanged its value with the
/// partner slot named for it in `partners`.
pub fn swap_slots(order: &Vec<usize>, partners: &Vec<Option<usize>>) -> (mutant: Vec<usize>)
    requires
        partners.len() == order.len(),
        partners_in_range(partners@, order.len() as nat),
    ensures
        mutant@ == swaps_applied(order@, partners@, order.len() as nat),
        mutant.len() == order.len(),
        is_permutation(order@) ==> is_permutation(mutant@),
{
    let n = order.len();
    let mut mutant: Vec<usize> = order.clone();
    assert(mutant@ =~= order@);
    let mut i: usize = 0;
    while i < n
        invariant
            i <= n,
            n == order.len(),
            n == partners.len(),
            mutant.len() == n,
            partners_in_range(partners@, n as nat),
            mutant@ == swaps_applied(order@, partners@, i as nat),
        decreases n - i,
    {
        match partners[i] {
            Some(partner) => {
                let here = mutant[i];
                let there = mutant[partner];
                mutant.set(i, there);
                mutant.set(partner, here);
            },
            None => {},
        }
        i = i + 1;
    }
    proof {
        lemma_swaps_keep_permutation(order@, partners@, n as nat);
    }
    mutant
}

} // verus!
