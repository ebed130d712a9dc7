//! Permutations of `0..n`, the invariant of permutation genotypes.
use vstd::prelude::*;
use vstd::seq_lib::*;
use vstd::set_lib::*;

verus! {

/// `order` holds each of `0..order.len()` exactly once: every value is below
/// the length, and no value occurs twice.
pub open spec fn is_permutation(order: Seq<usize>) -> bool {
    &&& forall|i: int| 0 <= i < order.len() ==> #[trigger] order[i] < order.len()
    &&& order.no_duplicates()
}

/// The permutation that leaves every slot in place.
pub open spec fn identity(n: nat) -> Seq<usize> {
    Seq::new(n, |i: int| i as usize)
}

/// The slot at which `order` holds `value`.
pub open spec fn slot_of(order: Seq<usize>, value: usize) -> int {
    choose|i: int| 0 <= i < order.len() && order[i] == value
}

/// `order` after slots `i` and `j` have exchanged their values.
pub open spec fn swapped(order: Seq<usize>, i: int, j: int) -> Seq<usize> {
    order.update(i, order[j]).update(j, order[i])
}

/// Distinct integers that all lie in `lo..hi` are at most `hi - lo` many.
pub proof fn lemma_distinct_in_range(items: Seq<int>, lo: int, hi: int)
    requires
        lo <= hi,
        items.no_duplicates(),
        forall|i: int| 0 <= i < items.len() ==> lo <= #[trigger] items[i] < hi,
    ensures
        items.len() <= hi - lo,
{
    items.unique_seq_to_set();
    lemma_int_range(lo, hi);
    assert(items.to_set().subset_of(set_int_range(lo, hi))) by {
        assert forall|x: int| items.to_set().contains(x) implies set_int_range(lo, hi).contains(
            x,
        ) by {
            let i = choose|i: int| 0 <= i < items.len() && items[i] == x;
            assert(lo <= items[i] < hi);
        }
    }
    lemma_len_subset(items.to_set(), set_int_range(lo, hi));
}

/// A permutation of `0..n` holds every value below `n`, at the slot that
/// `slot_of` names.
pub proof fn lemma_permutation_has_every_value(order: Seq<usize>, value: usize)
    requires
        is_permutation(order),
        value < order.len(),
    ensures
        order.contains(value),
        0 <= slot_of(order, value) < order.len(),
        order[slot_of(order, value)] == value,
{
    let n = order.len() as int;
    let wide = Seq::new(order.len(), |i: int| order[i] as int);
    assert(wide.no_duplicates());
    wide.unique_seq_to_set();
    lemma_int_range(0, n);
    assert(wide.to_set().subset_of(set_int_range(0, n))) by {
        assert forall|x: int| wide.to_set().contains(x) implies set_int_range(0, n).contains(
            x,
        ) by {
            let i = choose|i: int| 0 <= i < wide.len() && wide[i] == x;
            assert(order[i] < order.len());
        }
    }
    lemma_len_subset(wide.to_set(), set_int_range(0, n));
    lemma_subset_equality(wide.to_set(), set_int_range(0, n));
    assert(set_int_range(0, n).contains(value as int));
    assert(wide.to_set().contains(value as int));
    let i = choose|i: int| 0 <= i < wide.len() && wide[i] == value as int;
    assert(order[i] == value);
}

/// In a permutation the slot of the value held at `i` is `i`.
pub proof fn lemma_slot_of_own_value(order: Seq<usize>, i: int)
    requires
        is_permutation(order),
        0 <= i < order.len(),
    ensures
        slot_of(order, order[i]) == i,
{
    let j = slot_of(order, order[i]);
    assert(0 <= j < order.len() && order[j] == order[i]);
}

/// Exchanging two slots of a permutation leaves a permutation.
pub proof fn lemma_swap_keeps_permutation(order: Seq<usize>, i: int, j: int)
    requires
        is_permutation(order),
        0 <= i < order.len(),
        0 <= j < order.len(),
    ensures
        is_permutation(swapped(order, i, j)),
        swapped(order, i, j).len() == order.len(),
{
    let after = swapped(order, i, j);
    assert forall|a: int, b: int|
        0 <= a < after.len() && 0 <= b < after.len() && a != b implies after[a] != after[b] by {
        let from_a = if a == i { j } else if a == j { i } else { a };
        let from_b = if b == i { j } else if b == j { i } else { b };
        assert(after[a] == order[from_a]);
        assert(after[b] == order[from_b]);
        assert(from_a != from_b);
    }
    assert forall|a: int| 0 <= a < after.len() implies #[trigger] after[a] < after.len() by {
        let from_a = if a == i { j } else if a == j { i } else { a };
        assert(after[a] == order[from_a]);
    }
}

/// Items that are the values `0..n` in some order form a permutation.
pub proof fn lemma_reordered_identity(items: Seq<usize>, n: nat)
    requires
        n <= usize::MAX,
        items.to_multiset() == identity(n).to_multiset(),
    ensures
        is_permutation(items),
        items.len() == n,
{
    broadcast use vstd::multiset::group_multiset_axioms;
    broadcast use to_multiset_len, to_multiset_contains;

    let plain = identity(n);
    assert(items.len() == n) by {
        assert(items.to_multiset().len() == items.len());
        assert(plain.to_multiset().len() == plain.len());
    }
    plain.lemma_multiset_has_no_duplicates();
    items.lemma_multiset_has_no_duplicates_conv();
    assert forall|i: int| 0 <= i < items.len() implies #[trigger] items[i] < items.len() by {
        assert(items.contains(items[i]));
        assert(items.to_multiset().contains(items[i]));
        assert(plain.to_multiset().contains(items[i]));
        assert(plain.contains(items[i]));
        let j = choose|j: int| 0 <= j < plain.len() && plain[j] == items[i];
        assert(plain[j] == j);
    }
}

/// Tells whether `order` is a permutation of `0..order.len()`.
pub fn check_permutation(order: &Vec<usize>) -> (ok: bool)
    ensures
        ok == is_permutation(order@),
{
    let n = order.len();
    let mut seen: Vec<bool> = vec![false; n];
    let mut i: usize = 0;
    while i < n
        invariant
            i <= n,
            n == order.len(),
            seen.len() == n,
            forall|k: int| 0 <= k < i ==> #[trigger] order[k] < n,
            forall|a: int, b: int| 0 <= a < b < i ==> order[a] != order[b],
            forall|v: int|
                0 <= v < n ==> (#[trigger] seen[v] <==> exists|k: int|
                    0 <= k < i && order[k] == v),
        decreases n - i,
    {
        let value = order[i];
        if value >= n {
            assert(!(order@[i as int] < order@.len()));
            return false;
        }
        if seen[value] {
            proof {
                let k = choose|k: int| 0 <= k < i && order[k] == value;
                assert(order@[k] == order@[i as int]);
            }
            return false;
        }
        seen.set(value, true);
        assert forall|v: int| 0 <= v < n implies (#[trigger] seen[v] <==> exists|k: int|
            0 <= k < i + 1 && order[k] == v) by {
            if v == value {
                assert(order[i as int] == v);
            } else if seen[v] {
                let k = choose|k: int| 0 <= k < i && order[k] == v;
                assert(0 <= k < i + 1 && order[k] == v);
            }
        }
        i = i + 1;
    }
    true
}

/// The identity permutation of `n` slots.
pub fn identity_order(n: usize) -> (order: Vec<usize>)
    ensures
        order@ == identity(n as nat),
{
    let mut order: Vec<usize> = Vec::with_capacity(n);
    let mut i: usize = 0;
    while i < n
        invariant
            i <= n,
            order.len() == i,
            forall|k: int| 0 <= k < i ==> order[k] == k,
        decreases n - i,
    {
        order.push(i);
        i = i + 1;
    }
    assert(order@ =~= identity(n as nat));
    order
}

/// For each value, the slot at which the permutation `order` holds it.
pub fn inverse(order: &Vec<usize>) -> (slots: Vec<usize>)
    requires
        is_permutation(order@),
    ensures
        slots.len() == order.len(),
        forall|i: int| 0 <= i < order.len() ==> slots[order[i] as int] == i,
        forall|v: int| 0 <= v < order.len() ==> #[trigger] slots[v] == slot_of(order@, v as usize),
        is_permutation(slots@),
{
    let n = order.len();
    let mut slots: Vec<usize> = vec![0; n];
    let mut i: usize = 0;
    while i < n
        invariant
            i <= n,
            n == order.len(),
            slots.len() == n,
            is_permutation(order@),
            forall|k: int| 0 <= k < i ==> slots[#[trigger] order[k] as int] == k,
        decreases n - i,
    {
        let value = order[i];
        assert(order@[i as int] < n);
        slots.set(value, i);
        i = i + 1;
    }
    proof {
        assert forall|v: int| 0 <= v < n implies #[trigger] slots[v] == slot_of(
            order@,
            v as usize,
        ) by {
            lemma_permutation_has_every_value(order@, v as usize);
            let k = slot_of(order@, v as usize);
            assert(slots[order[k] as int] == k);
        }
        assert forall|v: int| 0 <= v < n implies #[trigger] slots[v] < n by {
            lemma_permutation_has_every_value(order@, v as usize);
        }
        assert forall|a: int, b: int| 0 <= a < n && 0 <= b < n && a != b implies slots[a]
            != slots[b] by {
            lemma_permutation_has_every_value(order@, a as usize);
            lemma_permutation_has_every_value(order@, b as usize);
        }
    }
    slots
}

} // verus!
