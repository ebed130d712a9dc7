//! The fittest and the least fit slot of a fitness record.
use vstd::prelude::*;

verus! {

/// `at` is the first entry of the highest rank.
pub open spec fn is_first_best(record: Seq<(usize, i64)>, at: int) -> bool {
    &&& 0 <= at < record.len()
    &&& forall|j: int| 0 <= j < record.len() ==> (#[trigger] record[j]).1 <= record[at].1
    &&& forall|j: int| 0 <= j < at ==> (#[trigger] record[j]).1 < record[at].1
}

/// `at` is the first entry of the lowest rank.
pub open spec fn is_first_worst(record: Seq<(usize, i64)>, at: int) -> bool {
    &&& 0 <= at < record.len()
    &&& forall|j: int| 0 <= j < record.len() ==> (#[trigger] record[j]).1 >= record[at].1
    &&& forall|j: int| 0 <= j < at ==> (#[trigger] record[j]).1 > record[at].1
}

/// The first entry of the highest rank.
pub open spec fn first_best(record: Seq<(usize, i64)>) -> int {
    choose|at: int| is_first_best(record, at)
}

/// The first entry of the lowest rank.
pub open spec fn first_worst(record: Seq<(usize, i64)>) -> int {
    choose|at: int| is_first_worst(record, at)
}

/// At most one entry is the first of the highest rank.
pub proof fn lemma_first_best_unique(record: Seq<(usize, i64)>, at: int)
    requires
        is_first_best(record, at),
    ensures
        first_best(record) == at,
{
    let other = first_best(record);
    assert(is_first_best(record, other));
    if other < at {
        assert(record[other].1 < record[at].1);
        assert(record[at].1 <= record[other].1);
    }
    if at < other {
        assert(record[at].1 < record[other].1);
        assert(record[other].1 <= record[at].1);
    }
}

/// At most one entry is the first of the lowest rank.
pub proof fn lemma_first_worst_unique(record: Seq<(usize, i64)>, at: int)
    requires
        is_first_worst(record, at),
    ensures
        first_worst(record) == at,
{
    let other = first_worst(record);
    assert(is_first_worst(record, other));
    if other < at {
        assert(record[other].1 > record[at].1);
        assert(record[at].1 >= record[other].1);
    }
    if at < other {
        assert(record[at].1 > record[other].1);
        assert(record[other].1 >= record[at].1);
    }
}

/// Among the first `upto` entries there is a first of the highest rank.
proof fn lemma_first_best_among(record: Seq<(usize, i64)>, upto: int) -> (at: int)
    requires
        1 <= upto <= record.len(),
    ensures
        0 <= at < upto,
        forall|j: int| 0 <= j < upto ==> (#[trigger] record[j]).1 <= record[at].1,
        forall|j: int| 0 <= j < at ==> (#[trigger] record[j]).1 < record[at].1,
    decreases upto,
{
    if upto == 1 {
        0
    } else {
        let before = lemma_first_best_among(record, upto - 1);
        if record[upto - 1].1 > record[before].1 {
            upto - 1
        } else {
            before
        }
    }
}

/// A record that is not empty has a first entry of the highest rank.
pub proof fn lemma_first_best_exists(record: Seq<(usize, i64)>)
    requires
        record.len() > 0,
    ensures
        is_first_best(record, first_best(record)),
{
    let at = lemma_first_best_among(record, record.len() as int);
    assert(is_first_best(record, at));
}

/// The first entry of the highest rank.
pub fn best_entry(record: &Vec<(usize, i64)>) -> (at: usize)
    requires
        record.len() > 0,
    ensures
        is_first_best(record@, at as int),
        at == first_best(record@),
{
    let mut at: usize = 0;
    let mut i: usize = 1;
    while i < record.len()
        invariant
            1 <= i <= record.len(),
            at < i,
            forall|j: int| 0 <= j < i ==> (#[trigger] record[j]).1 <= record[at as int].1,
            forall|j: int| 0 <= j < at ==> (#[trigger] record[j]).1 < record[at as int].1,
        decreases record.len() - i,
    {
        if record[i].1 > record[at].1 {
            at = i;
        }
        i = i + 1;
    }
    proof {
        lemma_first_best_unique(record@, at as int);
    }
    at
}

/// The first entry of the lowest rank.
pub fn worst_entry(record: &Vec<(usize, i64)>) -> (at: usize)
    requires
        record.len() > 0,
    ensures
        is_first_worst(record@, at as int),
        at == first_worst(record@),
{
    let mut at: usize = 0;
    let mut i: usize = 1;
    while i < record.len()
        invariant
            1 <= i <= record.len(),
            at < i,
            forall|j: int| 0 <= j < i ==> (#[trigger] record[j]).1 >= record[at as int].1,
            forall|j: int| 0 <= j < at ==> (#[trigger] record[j]).1 > record[at as int].1,
        decreases record.len() - i,
    {
        if record[i].1 < record[at].1 {
            at = i;
        }
        i = i + 1;
    }
    proof {
        lemma_first_worst_unique(record@, at as int);
    }
    at
}

} // verus!
