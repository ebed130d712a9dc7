//! Partially mapped crossover (PMX) of two permutations.
//!
//! Between two cut points a child takes the other parent's values. Outside
//! them it keeps its own parent's value, unless the segment already holds that
//! value: then the value is remapped, again and again, to the value that its
//! own parent holds where the other parent holds it, until a value comes up
//! that the segment does not hold.
use std::collections::HashMap;
use vstd::pervasive::unreached;
use vstd::prelude::*;

use crate::cycle::compatible;
use crate::permutation::{
    is_permutation, lemma_distinct_in_range, lemma_slot_of_own_value, slot_of,
};

verus! {

/// `donor` holds `value` at one of the slots `from..to`.
pub open spec fn in_segment(donor: Seq<usize>, from: int, to: int, value: usize) -> bool {
    exists|j: int| from <= j < to && 0 <= j < donor.len() && donor[j] == value
}

/// The value that takes the place of `value`: what `own` holds at the slot
/// where `donor` holds `value`.
pub open spec fn remapped(own: Seq<usize>, donor: Seq<usize>, value: usize) -> usize {
    own[slot_of(donor, value)]
}

/// The value reached from `value` by remapping it `steps` times.
pub open spec fn walk(own: Seq<usize>, donor: Seq<usize>, value: usize, steps: nat) -> usize
    decreases steps,
{
    if steps == 0 {
        value
    } else {
        remapped(own, donor, walk(own, donor, value, (steps - 1) as nat))
    }
}

/// Every value on the first `steps` steps of the walk from `value` is held
/// in the donor's segment.
pub open spec fn held_up_to(
    own: Seq<usize>,
    donor: Seq<usize>,
    from: int,
    to: int,
    value: usize,
    steps: nat,
) -> bool {
    forall|m: nat| m < steps ==> in_segment(donor, from, to, #[trigger] walk(own, donor, value, m))
}

/// The walk from `value` leaves the donor's segment after exactly `steps`
/// remaps.
pub open spec fn settles(
    own: Seq<usize>,
    donor: Seq<usize>,
    from: int,
    to: int,
    value: usize,
    steps: nat,
) -> bool {
    &&& held_up_to(own, donor, from, to, value, steps)
    &&& !in_segment(donor, from, to, walk(own, donor, value, steps))
}

/// The first value on the walk from `value` that the donor's segment does
/// not hold.
pub open spec fn resolved(
    own: Seq<usize>,
    donor: Seq<usize>,
    from: int,
    to: int,
    value: usize,
) -> usize {
    walk(own, donor, value, choose|steps: nat| settles(own, donor, from, to, value, steps))
}

/// The child that holds the donor's values at the slots `from..to` and, at
/// every other slot, its own parent's value resolved against that segment.
pub open spec fn pmx_child(own: Seq<usize>, donor: Seq<usize>, from: int, to: int) -> Seq<usize> {
    Seq::new(
        own.len(),
        |i: int|
            if from <= i < to {
                donor[i]
            } else {
                resolved(own, donor, from, to, own[i])
            },
    )
}

/// The two children of a partially mapped crossover with the cut points
/// `from` and `to`.
pub open spec fn pmx_children(first: Seq<usize>, second: Seq<usize>, from: int, to: int) -> (
    Seq<usize>,
    Seq<usize>,
) {
    (pmx_child(first, second, from, to), pmx_child(second, first, from, to))
}

/// No two values on the first `steps` steps of the walk are the same.
spec fn all_distinct(own: Seq<usize>, donor: Seq<usize>, value: usize, steps: nat) -> bool {
    forall|m1: nat, m2: nat|
        m1 < m2 <= steps ==> #[trigger] walk(own, donor, value, m1) != #[trigger] walk(
            own,
            donor,
            value,
            m2,
        )
}

proof fn lemma_segment_slot(donor: Seq<usize>, from: int, to: int, value: usize)
    requires
        is_permutation(donor),
        in_segment(donor, from, to, value),
    ensures
        from <= slot_of(donor, value) < to,
        0 <= slot_of(donor, value) < donor.len(),
        donor[slot_of(donor, value)] == value,
{
    let j = choose|j: int| from <= j < to && 0 <= j < donor.len() && donor[j] == value;
    lemma_slot_of_own_value(donor, j);
}

/// A remap of a value that the segment holds gives a value that `own` holds
/// inside the segment.
proof fn lemma_remapped(own: Seq<usize>, donor: Seq<usize>, from: int, to: int, value: usize)
    requires
        compatible(own, donor),
        in_segment(donor, from, to, value),
    ensures
        remapped(own, donor, value) < own.len(),
        in_segment(own, from, to, remapped(own, donor, value)),
{
    lemma_segment_slot(donor, from, to, value);
    let j = slot_of(donor, value);
    assert(own[j] < own.len());
}

/// Two values of the segment that remap to the same value are the same.
proof fn lemma_remapped_injective(
    own: Seq<usize>,
    donor: Seq<usize>,
    from: int,
    to: int,
    u: usize,
    w: usize,
)
    requires
        compatible(own, donor),
        in_segment(donor, from, to, u),
        in_segment(donor, from, to, w),
        remapped(own, donor, u) == remapped(own, donor, w),
    ensures
        u == w,
{
    lemma_segment_slot(donor, from, to, u);
    lemma_segment_slot(donor, from, to, w);
}

proof fn lemma_walk_in_range(
    own: Seq<usize>,
    donor: Seq<usize>,
    from: int,
    to: int,
    value: usize,
    steps: nat,
)
    requires
        compatible(own, donor),
        value < own.len(),
        held_up_to(own, donor, from, to, value, steps),
    ensures
        walk(own, donor, value, steps) < own.len(),
        steps > 0 ==> in_segment(own, from, to, walk(own, donor, value, steps)),
{
    if steps > 0 {
        let before = walk(own, donor, value, (steps - 1) as nat);
        assert(in_segment(donor, from, to, before));
        lemma_remapped(own, donor, from, to, before);
    }
}

/// One more step of a walk that started outside the segment: the value that
/// it reaches is new, and the walk has not outrun the segment.
proof fn lemma_walk_step(
    own: Seq<usize>,
    donor: Seq<usize>,
    from: int,
    to: int,
    origin: int,
    steps: nat,
)
    requires
        compatible(own, donor),
        0 <= from <= to <= own.len(),
        0 <= origin < own.len(),
        !(from <= origin < to),
        held_up_to(own, donor, from, to, own[origin], steps),
        all_distinct(own, donor, own[origin], steps),
        in_segment(donor, from, to, walk(own, donor, own[origin], steps)),
    ensures
        held_up_to(own, donor, from, to, own[origin], steps + 1),
        all_distinct(own, donor, own[origin], steps + 1),
        steps + 1 <= to - from,
{
    let start = own[origin];
    let next = walk(own, donor, start, steps + 1);
    let last = walk(own, donor, start, steps);
    assert(next == remapped(own, donor, last));
    lemma_segment_slot(donor, from, to, last);
    assert forall|m: nat| m <= steps implies #[trigger] walk(own, donor, start, m) != next by {
        let here = walk(own, donor, start, m);
        if here == next {
            if m == 0 {
                assert(own[origin] == own[slot_of(donor, last)]);
            } else {
                let before = walk(own, donor, start, (m - 1) as nat);
                assert(in_segment(donor, from, to, before));
                assert(here == remapped(own, donor, before));
                lemma_remapped_injective(own, donor, from, to, before, last);
                assert(walk(own, donor, start, (m - 1) as nat) == walk(own, donor, start, steps));
            }
        }
    }
    let slots = Seq::new(steps + 1, |m: int| slot_of(donor, walk(own, donor, start, m as nat)));
    assert forall|m: int| 0 <= m < slots.len() implies from <= #[trigger] slots[m] < to by {
        assert(in_segment(donor, from, to, walk(own, donor, start, m as nat)));
        lemma_segment_slot(donor, from, to, walk(own, donor, start, m as nat));
    }
    assert forall|a: int, b: int|
        0 <= a < slots.len() && 0 <= b < slots.len() && a != b implies slots[a] != slots[b] by {
        let lo = if a < b { a } else { b } as nat;
        let hi = if a < b { b } else { a } as nat;
        assert(walk(own, donor, start, lo) != walk(own, donor, start, hi));
        assert(in_segment(donor, from, to, walk(own, donor, start, lo)));
        assert(in_segment(donor, from, to, walk(own, donor, start, hi)));
        lemma_segment_slot(donor, from, to, walk(own, donor, start, lo));
        lemma_segment_slot(donor, from, to, walk(own, donor, start, hi));
    }
    lemma_distinct_in_range(slots, from, to);
}

/// The walk that starts at the value of a slot outside the segment settles
/// after `steps` steps, for some `steps` that this lemma returns.
proof fn lemma_walk_settles(
    own: Seq<usize>,
    donor: Seq<usize>,
    from: int,
    to: int,
    origin: int,
    done: nat,
) -> (steps: nat)
    requires
        compatible(own, donor),
        0 <= from <= to <= own.len(),
        0 <= origin < own.len(),
        !(from <= origin < to),
        held_up_to(own, donor, from, to, own[origin], done),
        all_distinct(own, donor, own[origin], done),
        done <= to - from,
    ensures
        settles(own, donor, from, to, own[origin], steps),
    decreases (to - from) - done,
{
    if in_segment(donor, from, to, walk(own, donor, own[origin], done)) {
        lemma_walk_step(own, donor, from, to, origin, done);
        lemma_walk_settles(own, donor, from, to, origin, done + 1)
    } else {
        done
    }
}

/// A walk settles after one number of steps only, so the value it resolves
/// to is the one reached after any number of steps at which it settles.
proof fn lemma_resolved(
    own: Seq<usize>,
    donor: Seq<usize>,
    from: int,
    to: int,
    value: usize,
    steps: nat,
)
    requires
        settles(own, donor, from, to, value, steps),
    ensures
        resolved(own, donor, from, to, value) == walk(own, donor, value, steps),
        !in_segment(donor, from, to, resolved(own, donor, from, to, value)),
{
    let other = choose|k: nat| settles(own, donor, from, to, value, k);
    if other < steps {
        assert(in_segment(donor, from, to, walk(own, donor, value, other)));
    }
    if steps < other {
        assert(in_segment(donor, from, to, walk(own, donor, value, steps)));
    }
}

/// Two walks that start outside the segment and end at the same value
/// started at the same value.
proof fn lemma_walks_meet(
    own: Seq<usize>,
    donor: Seq<usize>,
    from: int,
    to: int,
    p: int,
    q: int,
    a: nat,
    b: nat,
)
    requires
        compatible(own, donor),
        0 <= from <= to <= own.len(),
        0 <= p < own.len(),
        0 <= q < own.len(),
        !(from <= p < to),
        !(from <= q < to),
        held_up_to(own, donor, from, to, own[p], a),
        held_up_to(own, donor, from, to, own[q], b),
        walk(own, donor, own[p], a) == walk(own, donor, own[q], b),
    ensures
        p == q,
    decreases a,
{
    if a == 0 || b == 0 {
        if a > 0 {
            lemma_walk_in_range(own, donor, from, to, own[p], a);
            lemma_segment_slot(own, from, to, own[q]);
            lemma_slot_of_own_value(own, q);
        } else if b > 0 {
            lemma_walk_in_range(own, donor, from, to, own[q], b);
            lemma_segment_slot(own, from, to, own[p]);
            lemma_slot_of_own_value(own, p);
        }
    } else {
        let before_p = walk(own, donor, own[p], (a - 1) as nat);
        let before_q = walk(own, donor, own[q], (b - 1) as nat);
        assert(in_segment(donor, from, to, before_p));
        assert(in_segment(donor, from, to, before_q));
        lemma_remapped_injective(own, donor, from, to, before_p, before_q);
        lemma_walks_meet(own, donor, from, to, p, q, (a - 1) as nat, (b - 1) as nat);
    }
}

/// A child of a partially mapped crossover is a permutation.
pub proof fn lemma_pmx_child_is_permutation(own: Seq<usize>, donor: Seq<usize>, from: int, to: int)
    requires
        compatible(own, donor),
        0 <= from <= to <= own.len(),
    ensures
        is_permutation(pmx_child(own, donor, from, to)),
        pmx_child(own, donor, from, to).len() == own.len(),
{
    let n = own.len() as int;
    let child = pmx_child(own, donor, from, to);
    assert forall|i: int| 0 <= i < n implies #[trigger] child[i] < n by {
        if from <= i < to {
            assert(donor[i] < n);
        } else {
            let steps = lemma_walk_settles(own, donor, from, to, i, 0);
            lemma_resolved(own, donor, from, to, own[i], steps);
            assert(own[i] < n);
            lemma_walk_in_range(own, donor, from, to, own[i], steps);
        }
    }
    assert forall|p: int, q: int| 0 <= p < n && 0 <= q < n && p != q implies child[p]
        != child[q] by {
        let p_in = from <= p < to;
        let q_in = from <= q < to;
        if p_in && q_in {
        } else if p_in {
            let steps = lemma_walk_settles(own, donor, from, to, q, 0);
            lemma_resolved(own, donor, from, to, own[q], steps);
            assert(in_segment(donor, from, to, donor[p]));
        } else if q_in {
            let steps = lemma_walk_settles(own, donor, from, to, p, 0);
            lemma_resolved(own, donor, from, to, own[p], steps);
            assert(in_segment(donor, from, to, donor[q]));
        } else {
            let a = lemma_walk_settles(own, donor, from, to, p, 0);
            let b = lemma_walk_settles(own, donor, from, to, q, 0);
            lemma_resolved(own, donor, from, to, own[p], a);
            lemma_resolved(own, donor, from, to, own[q], b);
            if child[p] == child[q] {
                lemma_walks_meet(own, donor, from, to, p, q, a, b);
            }
        }
    }
}

/// A partially mapped crossover of the exchanged parents, at the same cut
/// points, gives the same two children in exchanged roles; inside the cut
/// points each child holds the other parent's values.
pub proof fn lemma_pmx_symmetric(first: Seq<usize>, second: Seq<usize>, from: int, to: int)
    requires
        first.len() == second.len(),
    ensures
        pmx_children(second, first, from, to) == (
            pmx_children(first, second, from, to).1,
            pmx_children(first, second, from, to).0,
        ),
        forall|i: int|
            from <= i < to && 0 <= i < first.len() ==> pmx_children(first, second, from, to).0[i]
                == second[i] && pmx_children(first, second, from, to).1[i] == first[i],
{
}

/// The child of `own` and `donor` with the cut points `from` and `to`.
pub fn partially_mapped_child(own: &Vec<usize>, donor: &Vec<usize>, from: usize, to: usize) -> (child:
    Vec<usize>)
    requires
        compatible(own@, donor@),
        from <= to <= own.len(),
    ensures
        child@ == pmx_child(own@, donor@, from as int, to as int),
        is_permutation(child@),
        child.len() == own.len(),
{
    broadcast use vstd::std_specs::hash::group_hash_axioms;

    let n = own.len();
    // The remap: each value of the donor's segment leads to the value that
    // `own` holds at the same slot.
    let mut remap: HashMap<usize, usize> = HashMap::with_capacity(to - from);
    let mut j: usize = from;
    while j < to
        invariant
            compatible(own@, donor@),
            n == own.len(),
            from <= j <= to <= n,
            forall|v: usize|
                #[trigger] remap@.contains_key(v) <==> in_segment(donor@, from as int, j as int, v),
            forall|v: usize|
                #[trigger] remap@.contains_key(v) ==> remap@[v] == remapped(own@, donor@, v),
        decreases to - j,
    {
        let key = donor[j];
        let ghost before = remap@;
        remap.insert(key, own[j]);
        proof {
            lemma_slot_of_own_value(donor@, j as int);
            assert forall|v: usize| #[trigger] remap@.contains_key(v) <==> in_segment(
                donor@,
                from as int,
                j + 1,
                v,
            ) by {
                if v == key {
                    assert(from <= j < j + 1 && donor@[j as int] == v);
                } else {
                    assert(remap@.contains_key(v) == before.contains_key(v));
                    if in_segment(donor@, from as int, j + 1, v) {
                        let k = choose|k: int|
                            from <= k < j + 1 && 0 <= k < donor@.len() && donor@[k] == v;
                        assert(from <= k < j && donor@[k] == v);
                    }
                    if in_segment(donor@, from as int, j as int, v) {
                        let k = choose|k: int|
                            from <= k < j && 0 <= k < donor@.len() && donor@[k] == v;
                        assert(from <= k < j + 1 && donor@[k] == v);
                    }
                }
            }
            assert forall|v: usize| #[trigger] remap@.contains_key(v) implies remap@[v]
                == remapped(own@, donor@, v) by {
                if v != key {
                    assert(before.contains_key(v));
                }
            }
        }
        j = j + 1;
    }
    let mut child: Vec<usize> = Vec::with_capacity(n);
    let mut i: usize = 0;
    while i < n
        invariant
            compatible(own@, donor@),
            n == own.len(),
            from <= to <= n,
            i <= n,
            child.len() == i,
            forall|v: usize|
                #[trigger] remap@.contains_key(v) <==> in_segment(
                    donor@,
                    from as int,
                    to as int,
                    v,
                ),
            forall|v: usize|
                #[trigger] remap@.contains_key(v) ==> remap@[v] == remapped(own@, donor@, v),
            forall|k: int|
                0 <= k < i ==> child[k] == pmx_child(own@, donor@, from as int, to as int)[k],
        decreases n - i,
    {
        if from <= i && i < to {
            child.push(donor[i]);
        } else {
            let mut value: usize = own[i];
            let ghost mut steps: nat = 0;
            while remap.contains_key(&value)
                invariant
                    compatible(own@, donor@),
                    n == own.len(),
                    from <= to <= n,
                    i < n,
                    !(from <= i < to),
                    value == walk(own@, donor@, own@[i as int], steps),
                    held_up_to(own@, donor@, from as int, to as int, own@[i as int], steps),
                    all_distinct(own@, donor@, own@[i as int], steps),
                    steps <= to - from,
                    forall|v: usize|
                        #[trigger] remap@.contains_key(v) <==> in_segment(
                            donor@,
                            from as int,
                            to as int,
                            v,
                        ),
                    forall|v: usize|
                        #[trigger] remap@.contains_key(v) ==> remap@[v] == remapped(
                            own@,
                            donor@,
                            v,
                        ),
                decreases (to - from) - steps,
            {
                proof {
                    lemma_walk_step(own@, donor@, from as int, to as int, i as int, steps);
                    assert(walk(own@, donor@, own@[i as int], steps + 1) == remapped(
                        own@,
                        donor@,
                        value,
                    ));
                    steps = steps + 1;
                }
                value = match remap.get(&value) {
                    Some(next) => *next,
                    None => unreached(),
                };
            }
            proof {
                lemma_resolved(own@, donor@, from as int, to as int, own@[i as int], steps);
            }
            child.push(value);
        }
        i = i + 1;
    }
    proof {
        assert(child@ =~= pmx_child(own@, donor@, from as int, to as int));
        lemma_pmx_child_is_permutation(own@, donor@, from as int, to as int);
    }
    child
}

/// The two children of the partially mapped crossover of `first` and
/// `second` with the cut points `from` and `to`.
pub fn partially_mapped_crossover(
    first: &Vec<usize>,
    second: &Vec<usize>,
    from: usize,
    to: usize,
) -> (children: (Vec<usize>, Vec<usize>))
    requires
        compatible(first@, second@),
        from <= to <= first.len(),
    ensures
        children.0@ == pmx_children(first@, second@, from as int, to as int).0,
        children.1@ == pmx_children(first@, second@, from as int, to as int).1,
        is_permutation(children.0@),
        is_permutation(children.1@),
        children.0.len() == first.len(),
        children.1.len() == first.len(),
{
    let child_1 = partially_mapped_child(first, second, from, to);
    let child_2 = partially_mapped_child(second, first, from, to);
    (child_1, child_2)
}

} // verus!
