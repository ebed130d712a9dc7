//! Cycle crossover of two permutations.
//!
//! Starting at slot 0, the cycle moves from a slot to the slot at which the
//! first parent holds the value that the second parent holds there. The
//! slots that it reaches keep their parent's value; all others exchange.
use std::collections::HashSet;
use vstd::prelude::*;

use crate::operators::{chosen, complementary, exchange_unmarked};
use crate::permutation::{
    inverse, is_permutation, lemma_distinct_in_range, lemma_permutation_has_every_value,
    lemma_slot_of_own_value, slot_of,
};

verus! {

/// Two permutations of the same, non-zero length.
pub open spec fn compatible(first: Seq<usize>, second: Seq<usize>) -> bool {
    &&& is_permutation(first)
    &&& is_permutation(second)
    &&& first.len() == second.len()
    &&& first.len() > 0
}

/// The slot that follows `slot` on a cycle: where `first` holds the value
/// that `second` holds at `slot`.
pub open spec fn successor(first: Seq<usize>, second: Seq<usize>, slot: int) -> int {
    slot_of(first, second[slot])
}

/// The slot reached from slot 0 after `steps` steps.
pub open spec fn cycle_slot(first: Seq<usize>, second: Seq<usize>, steps: nat) -> int
    decreases steps,
{
    if steps == 0 {
        0
    } else {
        successor(first, second, cycle_slot(first, second, (steps - 1) as nat))
    }
}

/// `slot` lies on the cycle through slot 0.
pub open spec fn in_cycle(first: Seq<usize>, second: Seq<usize>, slot: int) -> bool {
    exists|steps: nat| cycle_slot(first, second, steps) == slot
}

/// For each slot, whether it lies on the cycle through slot 0.
pub open spec fn cycle_mask(first: Seq<usize>, second: Seq<usize>) -> Seq<bool> {
    Seq::new(first.len(), |slot: int| in_cycle(first, second, slot))
}

/// The two children of a cycle crossover: the first keeps the first parent's
/// values on the cycle and takes the second parent's elsewhere, the second
/// does the reverse.
pub open spec fn cycle_children(first: Seq<usize>, second: Seq<usize>) -> (Seq<usize>, Seq<usize>) {
    (
        chosen(first, second, cycle_mask(first, second)),
        chosen(second, first, cycle_mask(first, second)),
    )
}

proof fn lemma_successor(first: Seq<usize>, second: Seq<usize>, slot: int)
    requires
        compatible(first, second),
        0 <= slot < first.len(),
    ensures
        0 <= successor(first, second, slot) < first.len(),
        first[successor(first, second, slot)] == second[slot],
{
    lemma_permutation_has_every_value(first, second[slot]);
}

proof fn lemma_successor_injective(first: Seq<usize>, second: Seq<usize>, i: int, j: int)
    requires
        compatible(first, second),
        0 <= i < first.len(),
        0 <= j < first.len(),
        successor(first, second, i) == successor(first, second, j),
    ensures
        i == j,
{
    lemma_successor(first, second, i);
    lemma_successor(first, second, j);
}

/// With the parents exchanged the successor runs backwards.
proof fn lemma_successor_inverse(first: Seq<usize>, second: Seq<usize>, slot: int)
    requires
        compatible(first, second),
        0 <= slot < first.len(),
    ensures
        0 <= successor(second, first, slot) < first.len(),
        successor(first, second, successor(second, first, slot)) == slot,
{
    lemma_successor(second, first, slot);
    lemma_slot_of_own_value(first, slot);
}

proof fn lemma_cycle_slot_in_range(first: Seq<usize>, second: Seq<usize>, steps: nat)
    requires
        compatible(first, second),
    ensures
        0 <= cycle_slot(first, second, steps) < first.len(),
    decreases steps,
{
    if steps > 0 {
        lemma_cycle_slot_in_range(first, second, (steps - 1) as nat);
        lemma_successor(first, second, cycle_slot(first, second, (steps - 1) as nat));
    }
}

/// Two visits of one slot lie a whole number of rounds apart, so the cycle
/// was back at slot 0 that many steps after the start.
proof fn lemma_cycle_pull_back(first: Seq<usize>, second: Seq<usize>, early: nat, late: nat)
    requires
        compatible(first, second),
        early < late,
        cycle_slot(first, second, early) == cycle_slot(first, second, late),
    ensures
        cycle_slot(first, second, (late - early) as nat) == 0,
    decreases early,
{
    if early > 0 {
        let e = (early - 1) as nat;
        let l = (late - 1) as nat;
        lemma_cycle_slot_in_range(first, second, e);
        lemma_cycle_slot_in_range(first, second, l);
        lemma_successor_injective(
            first,
            second,
            cycle_slot(first, second, e),
            cycle_slot(first, second, l),
        );
        lemma_cycle_pull_back(first, second, e, l);
    }
}

/// The cycle returns to slot 0 after at most as many steps as there are
/// slots.
pub proof fn lemma_cycle_closes(first: Seq<usize>, second: Seq<usize>) -> (period: nat)
    requires
        compatible(first, second),
    ensures
        1 <= period <= first.len(),
        cycle_slot(first, second, period) == 0,
{
    let n = first.len();
    let visits = Seq::new(n + 1, |k: int| cycle_slot(first, second, k as nat));
    assert forall|k: int| 0 <= k < visits.len() implies 0 <= #[trigger] visits[k] < n by {
        lemma_cycle_slot_in_range(first, second, k as nat);
    }
    if visits.no_duplicates() {
        lemma_distinct_in_range(visits, 0, n as int);
        assert(false);
    }
    let (i, j) = choose|i: int, j: int|
        0 <= i < visits.len() && 0 <= j < visits.len() && i != j && visits[i] == visits[j];
    let early = if i < j { i } else { j } as nat;
    let late = if i < j { j } else { i } as nat;
    assert(visits[early as int] == visits[late as int]);
    lemma_cycle_pull_back(first, second, early, late);
    (late - early) as nat
}

/// The successor of a slot on the cycle lies on the cycle.
proof fn lemma_cycle_forward(first: Seq<usize>, second: Seq<usize>, slot: int)
    requires
        in_cycle(first, second, slot),
    ensures
        in_cycle(first, second, successor(first, second, slot)),
{
    let steps = choose|steps: nat| cycle_slot(first, second, steps) == slot;
    assert(cycle_slot(first, second, steps + 1) == successor(first, second, slot));
}

/// A slot whose successor lies on the cycle lies on it too.
proof fn lemma_cycle_backward(first: Seq<usize>, second: Seq<usize>, slot: int)
    requires
        compatible(first, second),
        0 <= slot < first.len(),
        in_cycle(first, second, successor(first, second, slot)),
    ensures
        in_cycle(first, second, slot),
{
    let next = successor(first, second, slot);
    let found = choose|steps: nat| cycle_slot(first, second, steps) == next;
    let period = lemma_cycle_closes(first, second);
    let steps = if found == 0 { period } else { found };
    assert(cycle_slot(first, second, steps) == next);
    let before = (steps - 1) as nat;
    lemma_cycle_slot_in_range(first, second, before);
    lemma_successor_injective(first, second, cycle_slot(first, second, before), slot);
}

/// Every slot that the cycle of the exchanged parents visits lies on the
/// cycle of the parents as given.
proof fn lemma_reverse_cycle_inside(first: Seq<usize>, second: Seq<usize>, steps: nat)
    requires
        compatible(first, second),
    ensures
        in_cycle(first, second, cycle_slot(second, first, steps)),
    decreases steps,
{
    if steps == 0 {
        assert(cycle_slot(first, second, 0) == 0);
    } else {
        let before = cycle_slot(second, first, (steps - 1) as nat);
        lemma_reverse_cycle_inside(first, second, (steps - 1) as nat);
        lemma_cycle_slot_in_range(second, first, (steps - 1) as nat);
        lemma_successor_inverse(first, second, before);
        lemma_cycle_backward(first, second, successor(second, first, before));
    }
}

/// The cycle through slot 0 covers the same slots whichever parent comes
/// first, so a cycle crossover of the exchanged parents gives the same two
/// children in exchanged roles.
pub proof fn lemma_cycle_symmetric(first: Seq<usize>, second: Seq<usize>)
    requires
        compatible(first, second),
    ensures
        cycle_mask(second, first) == cycle_mask(first, second),
        cycle_children(second, first) == (
            cycle_children(first, second).1,
            cycle_children(first, second).0,
        ),
{
    assert forall|slot: int| 0 <= slot < first.len() implies in_cycle(second, first, slot)
        == in_cycle(first, second, slot) by {
        if in_cycle(second, first, slot) {
            let steps = choose|steps: nat| cycle_slot(second, first, steps) == slot;
            lemma_reverse_cycle_inside(first, second, steps);
        }
        if in_cycle(first, second, slot) {
            let steps = choose|steps: nat| cycle_slot(first, second, steps) == slot;
            lemma_reverse_cycle_inside(second, first, steps);
        }
    }
    assert(cycle_mask(second, first) =~= cycle_mask(first, second));
}

/// The children of a cycle crossover are permutations, and each slot of the
/// two children holds the two parents' values of that slot, one each.
pub proof fn lemma_cycle_children(first: Seq<usize>, second: Seq<usize>)
    requires
        compatible(first, second),
    ensures
        is_permutation(cycle_children(first, second).0),
        is_permutation(cycle_children(first, second).1),
        cycle_children(first, second).0.len() == first.len(),
        cycle_children(first, second).1.len() == first.len(),
        complementary(
            cycle_children(first, second).0,
            cycle_children(first, second).1,
            first,
            second,
        ),
{
    let n = first.len() as int;
    let mask = cycle_mask(first, second);
    let child_1 = cycle_children(first, second).0;
    let child_2 = cycle_children(first, second).1;
    assert forall|p: int, q: int| 0 <= p < n && 0 <= q < n && p != q implies child_1[p]
        != child_1[q] by {
        if mask[p] && !mask[q] && first[p] == second[q] {
            lemma_slot_of_own_value(first, p);
            lemma_cycle_backward(first, second, q);
        }
        if mask[q] && !mask[p] && first[q] == second[p] {
            lemma_slot_of_own_value(first, q);
            lemma_cycle_backward(first, second, p);
        }
    }
    assert forall|p: int, q: int| 0 <= p < n && 0 <= q < n && p != q implies child_2[p]
        != child_2[q] by {
        if mask[p] && !mask[q] && second[p] == first[q] {
            lemma_slot_of_own_value(first, q);
            lemma_cycle_forward(first, second, p);
        }
        if mask[q] && !mask[p] && second[q] == first[p] {
            lemma_slot_of_own_value(first, p);
            lemma_cycle_forward(first, second, q);
        }
    }
    assert forall|p: int| 0 <= p < n implies #[trigger] child_1[p] < n by {
        assert(first[p] < n && second[p] < n);
    }
    assert forall|p: int| 0 <= p < n implies #[trigger] child_2[p] < n by {
        assert(first[p] < n && second[p] < n);
    }
}

/// Once the cycle has come back to a slot that it visited in its first
/// `seen` steps, it never leaves those slots.
proof fn lemma_cycle_stays(first: Seq<usize>, second: Seq<usize>, seen: nat, steps: nat)
    requires
        seen >= 1,
        exists|m: nat|
            m < seen && #[trigger] cycle_slot(first, second, m) == cycle_slot(first, second, seen),
    ensures
        exists|m: nat|
            m < seen && #[trigger] cycle_slot(first, second, m) == cycle_slot(first, second, steps),
    decreases steps,
{
    if steps == 0 {
        assert(0 < seen && cycle_slot(first, second, 0) == cycle_slot(first, second, steps));
    } else {
        lemma_cycle_stays(first, second, seen, (steps - 1) as nat);
        let target = cycle_slot(first, second, (steps - 1) as nat);
        let m = choose|m: nat| m < seen && #[trigger] cycle_slot(first, second, m) == target;
        assert(cycle_slot(first, second, m + 1) == cycle_slot(first, second, steps));
        if m + 1 < seen {
        } else {
            let back = choose|back: nat|
                back < seen && #[trigger] cycle_slot(first, second, back) == cycle_slot(
                    first,
                    second,
                    seen,
                );
            assert(cycle_slot(first, second, back) == cycle_slot(first, second, steps));
        }
    }
}

/// The slots that lie on the cycle through slot 0.
pub fn cycle_slots(first: &Vec<usize>, second: &Vec<usize>) -> (visited: HashSet<usize>)
    requires
        compatible(first@, second@),
    ensures
        forall|slot: usize|
            #[trigger] visited@.contains(slot) <==> slot < first.len() && in_cycle(
                first@,
                second@,
                slot as int,
            ),
{
    broadcast use vstd::std_specs::hash::group_hash_axioms;

    let n = first.len();
    let slots = inverse(first);
    let mut visited: HashSet<usize> = HashSet::with_capacity(n);
    visited.insert(0);
    assert(second@[0] < n);
    let mut at: usize = slots[second[0]];
    let ghost mut seen: nat = 1;
    proof {
        assert(cycle_slot(first@, second@, 0) == 0);
        assert(cycle_slot(first@, second@, 1) == successor(first@, second@, 0));
        lemma_cycle_slot_in_range(first@, second@, 1);
        assert forall|i: usize| #[trigger] visited@.contains(i) <==> exists|m: nat|
            m < seen && cycle_slot(first@, second@, m) == i by {
            if i == 0 {
                assert(0 < seen && cycle_slot(first@, second@, 0) == i);
            }
        }
    }
    while !visited.contains(&at)
        invariant
            compatible(first@, second@),
            n == first.len(),
            slots.len() == n,
            forall|v: int| 0 <= v < n ==> #[trigger] slots[v] == slot_of(first@, v as usize),
            1 <= seen <= n,
            at < n,
            at == cycle_slot(first@, second@, seen),
            forall|i: usize| #[trigger]
                visited@.contains(i) <==> exists|m: nat|
                    m < seen && cycle_slot(first@, second@, m) == i,
            forall|m1: nat, m2: nat|
                m1 < m2 < seen ==> cycle_slot(first@, second@, m1) != cycle_slot(
                    first@,
                    second@,
                    m2,
                ),
        decreases n - seen,
    {
        proof {
            let visits = Seq::new(seen + 1, |k: int| cycle_slot(first@, second@, k as nat));
            assert forall|k: int| 0 <= k < visits.len() implies 0 <= #[trigger] visits[k] < n by {
                lemma_cycle_slot_in_range(first@, second@, k as nat);
            }
            assert forall|i: int, j: int|
                0 <= i < visits.len() && 0 <= j < visits.len() && i != j implies visits[i]
                != visits[j] by {
                let lo = if i < j { i } else { j } as nat;
                let hi = if i < j { j } else { i } as nat;
                if hi < seen {
                    assert(cycle_slot(first@, second@, lo) != cycle_slot(first@, second@, hi));
                } else {
                    assert(!(lo < seen && cycle_slot(first@, second@, lo) == at as int));
                }
            }
            lemma_distinct_in_range(visits, 0, n as int);
        }
        let ghost before = visited@;
        visited.insert(at);
        assert(second@[at as int] < n);
        let next = slots[second[at]];
        proof {
            assert(cycle_slot(first@, second@, seen + 1) == successor(first@, second@, at as int));
            lemma_cycle_slot_in_range(first@, second@, seen + 1);
            assert forall|i: usize| #[trigger] visited@.contains(i) <==> exists|m: nat|
                m < seen + 1 && cycle_slot(first@, second@, m) == i by {
                if i == at {
                    assert(seen < seen + 1 && cycle_slot(first@, second@, seen) == i);
                } else {
                    assert(visited@.contains(i) == before.contains(i));
                    if before.contains(i) {
                        let m = choose|m: nat| m < seen && cycle_slot(first@, second@, m) == i;
                        assert(m < seen + 1 && cycle_slot(first@, second@, m) == i);
                    }
                }
            }
            assert forall|m1: nat, m2: nat| m1 < m2 < seen + 1 implies cycle_slot(
                first@,
                second@,
                m1,
            ) != cycle_slot(first@, second@, m2) by {
                if m2 == seen {
                    assert(!(m1 < seen && cycle_slot(first@, second@, m1) == at as int));
                }
            }
            seen = seen + 1;
        }
        at = next;
    }
    proof {
        assert forall|i: usize| #[trigger] visited@.contains(i) <==> i < n && in_cycle(
            first@,
            second@,
            i as int,
        ) by {
            if visited@.contains(i) {
                let m = choose|m: nat| m < seen && cycle_slot(first@, second@, m) == i;
                lemma_cycle_slot_in_range(first@, second@, m);
            }
            if i < n && in_cycle(first@, second@, i as int) {
                let steps = choose|steps: nat| cycle_slot(first@, second@, steps) == i as int;
                lemma_cycle_stays(first@, second@, seen, steps);
            }
        }
    }
    visited
}

/// Marks the slots that lie on the cycle through slot 0.
pub fn cycle_members(first: &Vec<usize>, second: &Vec<usize>) -> (members: Vec<bool>)
    requires
        compatible(first@, second@),
    ensures
        members@ == cycle_mask(first@, second@),
{
    broadcast use vstd::std_specs::hash::group_hash_axioms;

    let n = first.len();
    let visited = cycle_slots(first, second);
    let mut members: Vec<bool> = Vec::with_capacity(n);
    let mut i: usize = 0;
    while i < n
        invariant
            i <= n,
            n == first.len(),
            members.len() == i,
            forall|slot: usize|
                #[trigger] visited@.contains(slot) <==> slot < first.len() && in_cycle(
                    first@,
                    second@,
                    slot as int,
                ),
            forall|k: int| 0 <= k < i ==> members[k] == in_cycle(first@, second@, k),
        decreases n - i,
    {
        let on_cycle = visited.contains(&i);
        members.push(on_cycle);
        i = i + 1;
    }
    assert(members@ =~= cycle_mask(first@, second@));
    members
}

/// The two children of the cycle crossover of `first` and `second`.
pub fn cycle_crossover(first: &Vec<usize>, second: &Vec<usize>) -> (children: (
    Vec<usize>,
    Vec<usize>,
))
    requires
        compatible(first@, second@),
    ensures
        children.0@ == cycle_children(first@, second@).0,
        children.1@ == cycle_children(first@, second@).1,
        is_permutation(children.0@),
        is_permutation(children.1@),
        children.0.len() == first.len(),
        children.1.len() == first.len(),
{
    let members = cycle_members(first, second);
    proof {
        lemma_cycle_children(first@, second@);
    }
    exchange_unmarked(first, second, &members)
}

} // verus!
