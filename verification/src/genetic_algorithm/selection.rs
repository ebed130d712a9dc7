//! Selection of parents from a fitness record.
//!
//! A fitness record lists, slot by slot, the slot's number and the rank of
//! the individual in it: a higher rank is a fitter individual.
use vstd::prelude::*;

use crate::random::RandomSource;
use crate::rate::{Rate, RATE_SCALE};

verus! {

/// `record` is the fitness record of a population of `pop_size`: entry `i`
/// is about slot `i`.
pub open spec fn is_record(record: Seq<(usize, i64)>, pop_size: nat) -> bool {
    &&& record.len() == pop_size
    &&& forall|i: int| 0 <= i < record.len() ==> (#[trigger] record[i]).0 == i
}

/// `pool` pairs up parents of a population of `pop_size`: half as many pairs
/// as there are slots, each of two slots of the population.
pub open spec fn is_mating_pool(pool: Seq<(usize, usize)>, pop_size: nat) -> bool {
    &&& pool.len() == pop_size / 2
    &&& forall|k: int|
        0 <= k < pool.len() ==> (#[trigger] pool[k]).0 < pop_size && pool[k].1 < pop_size
}

/// The winner of a tournament between the slots `first` and `second`. Where
/// the fitter is favoured, `first` wins if it ranks strictly higher; where
/// the less fit is favoured, `first` wins if it ranks strictly lower. In all
/// other cases `second` wins.
pub open spec fn duel_winner(
    record: Seq<(usize, i64)>,
    first: int,
    second: int,
    favour_fitter: bool,
) -> int {
    if favour_fitter {
        if record[first].1 > record[second].1 {
            first
        } else {
            second
        }
    } else {
        if record[first].1 < record[second].1 {
            first
        } else {
            second
        }
    }
}

/// `pool` is a mating pool as the roulette wheel gives it: no slot is first
/// parent of two pairs, and no slot is paired with itself.
pub open spec fn is_roulette_pool(pool: Seq<(usize, usize)>, pop_size: nat) -> bool {
    &&& is_mating_pool(pool, pop_size)
    &&& forall|k: int| 0 <= k < pool.len() ==> (#[trigger] pool[k]).0 != pool[k].1
    &&& forall|j: int, k: int|
        0 <= j < k < pool.len() ==> (#[trigger] pool[j]).0 != (#[trigger] pool[k]).0
}

/// The slot of the entry is none of `taken`.
pub open spec fn is_free(taken: Seq<usize>, entry: (usize, i64)) -> bool {
    !taken.contains(entry.0)
}

/// Tells whether `record` is the fitness record of a population of
/// `pop_size`.
pub fn check_record(record: &Vec<(usize, i64)>, pop_size: usize) -> (ok: bool)
    ensures
        ok == is_record(record@, pop_size as nat),
{
    if record.len() != pop_size {
        return false;
    }
    let mut i: usize = 0;
    while i < pop_size
        invariant
            i <= pop_size,
            record.len() == pop_size,
            forall|k: int| 0 <= k < i ==> (#[trigger] record[k]).0 == k,
        decreases pop_size - i,
    {
        if record[i].0 != i {
            return false;
        }
        i = i + 1;
    }
    true
}

/// Tells whether `pool` pairs up parents of a population of `pop_size`.
pub fn check_mating_pool(pool: &Vec<(usize, usize)>, pop_size: usize) -> (ok: bool)
    ensures
        ok == is_mating_pool(pool@, pop_size as nat),
{
    if pool.len() != pop_size / 2 {
        return false;
    }
    let mut k: usize = 0;
    while k < pool.len()
        invariant
            k <= pool.len(),
            pool.len() == pop_size / 2,
            forall|j: int|
                0 <= j < k ==> (#[trigger] pool[j]).0 < pop_size && pool[j].1 < pop_size,
        decreases pool.len() - k,
    {
        if pool[k].0 >= pop_size || pool[k].1 >= pop_size {
            return false;
        }
        k = k + 1;
    }
    true
}

/// Tells whether `pool` is a mating pool as the roulette wheel gives it.
pub fn check_roulette_pool(pool: &Vec<(usize, usize)>, pop_size: usize) -> (ok: bool)
    ensures
        ok == is_roulette_pool(pool@, pop_size as nat),
{
    if !check_mating_pool(pool, pop_size) {
        return false;
    }
    let mut first_parent: Vec<bool> = vec![false; pop_size];
    let mut k: usize = 0;
    while k < pool.len()
        invariant
            k <= pool.len(),
            is_mating_pool(pool@, pop_size as nat),
            first_parent.len() == pop_size,
            forall|j: int| 0 <= j < k ==> (#[trigger] pool[j]).0 != pool[j].1,
            forall|i: int, j: int|
                0 <= i < j < k ==> (#[trigger] pool[i]).0 != (#[trigger] pool[j]).0,
            forall|slot: int|
                0 <= slot < pop_size ==> (#[trigger] first_parent[slot] <==> exists|j: int|
                    0 <= j < k && pool[j].0 == slot),
        decreases pool.len() - k,
    {
        let (first, second) = pool[k];
        assert(pool@[k as int].0 < pop_size);
        if first == second {
            return false;
        }
        if first_parent[first] {
            proof {
                let j = choose|j: int| 0 <= j < k && pool[j].0 == first;
                assert(pool@[j].0 == pool@[k as int].0);
            }
            return false;
        }
        first_parent.set(first, true);
        assert forall|slot: int| 0 <= slot < pop_size implies (
        #[trigger] first_parent[slot] <==> exists|j: int| 0 <= j < k + 1 && pool[j].0 == slot) by {
            if slot == first {
                assert(pool[k as int].0 == slot);
            } else if first_parent[slot] {
                let j = choose|j: int| 0 <= j < k && pool[j].0 == slot;
                assert(0 <= j < k + 1 && pool[j].0 == slot);
            }
        }
        k = k + 1;
    }
    true
}

/// The winner of a tournament between the slots `first` and `second`.
pub fn duel(record: &Vec<(usize, i64)>, first: usize, second: usize, favour_fitter: bool) -> (winner:
    usize)
    requires
        first < record.len(),
        second < record.len(),
    ensures
        winner == duel_winner(record@, first as int, second as int, favour_fitter),
        winner == first || winner == second,
{
    let a = record[first].1;
    let b = record[second].1;
    if favour_fitter {
        if a > b {
            first
        } else {
            second
        }
    } else {
        if a < b {
            first
        } else {
            second
        }
    }
}

/// A strategy that pairs up parents.
pub trait Selection {
    /// Pairs up parents: half as many pairs as the record has slots, each of
    /// two slots of the record.
    fn select(&self, result: &Vec<(usize, i64)>, rng: &mut RandomSource) -> (pool: Vec<
        (usize, usize),
    >)
        ensures
            is_mating_pool(pool@, result@.len()),
    ;
}

/// Tournament selection: two slots drawn at random contest each place in the
/// mating pool. With probability `kp` the fitter wins, else the less fit. A
/// slot may be drawn against itself and then wins whatever its rank, so of
/// the pool no more holds than that its parents are slots of the record;
/// [`duel`] says who wins between two given slots.
pub struct Tournament {
    kp: Rate,
}

impl Tournament {
    /// The selection pressure.
    pub closed spec fn pressure(&self) -> Rate {
        self.kp
    }

    /// A tournament with selection pressure `kp`.
    pub fn new(kp: Rate) -> (tournament: Self)
        ensures
            tournament.pressure() == kp,
    {
        Self { kp }
    }

    /// One parent: the winner of a tournament between two slots drawn at
    /// random.
    fn contest(&self, result: &Vec<(usize, i64)>, rng: &mut RandomSource) -> (parent: usize)
        requires
            result.len() > 0,
        ensures
            parent < result.len(),
    {
        let pop_size = result.len();
        let first = rng.below(pop_size);
        let second = rng.below(pop_size);
        let favour_fitter = rng.chance(self.kp);
        duel(result, first, second, favour_fitter)
    }
}

impl Selection for Tournament {
    fn select(&self, result: &Vec<(usize, i64)>, rng: &mut RandomSource) -> (pool: Vec<
        (usize, usize),
    >) {
        let pop_size = result.len();
        let pairs = pop_size / 2;
        let mut mating_pool: Vec<(usize, usize)> = Vec::with_capacity(pairs);
        let mut k: usize = 0;
        while k < pairs
            invariant
                k <= pairs,
                pairs == pop_size / 2,
                pop_size == result.len(),
                mating_pool.len() == k,
                forall|j: int|
                    0 <= j < k ==> (#[trigger] mating_pool[j]).0 < pop_size && mating_pool[j].1
                        < pop_size,
            decreases pairs - k,
        {
            let parent_1 = self.contest(result, rng);
            let parent_2 = self.contest(result, rng);
            mating_pool.push((parent_1, parent_2));
            k = k + 1;
        }
        mating_pool
    }
}

/// Roulette wheel selection: a slot's chance is proportional to its scaled
/// fitness. The first parent of each pair is sampled from the whole
/// population, the second from all slots but the first parent's.
pub struct RouletteWheel {}

impl RouletteWheel {
    pub fn new() -> (wheel: Self) {
        Self {  }
    }

    /// The entries from which the partner of `parent_1` is sampled: those of
    /// all other slots, in slot order.
    pub fn rivals(&self, result: &Vec<(usize, i64)>, parent_1: usize) -> (others: Vec<(usize, i64)>)
        ensures
            others@ == result@.filter(|entry: (usize, i64)| entry.0 != parent_1),
    {
        let ghost other = |entry: (usize, i64)| entry.0 != parent_1;
        let mut others: Vec<(usize, i64)> = Vec::new();
        let mut i: usize = 0;
        assert(result@.take(0).filter(other) =~= Seq::<(usize, i64)>::empty()) by {
            reveal(Seq::filter);
        }
        while i < result.len()
            invariant
                i <= result.len(),
                other == |entry: (usize, i64)| entry.0 != parent_1,
                others@ == result@.take(i as int).filter(other),
            decreases result.len() - i,
        {
            let entry = result[i];
            proof {
                assert(result@.take(i + 1) =~= result@.take(i as int).push(entry));
                result@.take(i as int).lemma_filter_push(entry, other);
            }
            if entry.0 != parent_1 {
                others.push(entry);
            }
            i = i + 1;
        }
        assert(result@.take(result.len() as int) =~= result@);
        others
    }

    /// The entries from which the next first parent is sampled: those of the
    /// slots that are none of `taken`, in slot order.
    pub fn remaining(&self, result: &Vec<(usize, i64)>, taken: &Vec<usize>) -> (others: Vec<
        (usize, i64),
    >)
        ensures
            others@ == result@.filter(|entry: (usize, i64)| is_free(taken@, entry)),
    {
        let ghost free = |entry: (usize, i64)| is_free(taken@, entry);
        let mut others: Vec<(usize, i64)> = Vec::new();
        let mut i: usize = 0;
        assert(result@.take(0).filter(free) =~= Seq::<(usize, i64)>::empty()) by {
            reveal(Seq::filter);
        }
        while i < result.len()
            invariant
                i <= result.len(),
                free == |entry: (usize, i64)| is_free(taken@, entry),
                others@ == result@.take(i as int).filter(free),
            decreases result.len() - i,
        {
            let entry = result[i];
            proof {
                assert(result@.take(i + 1) =~= result@.take(i as int).push(entry));
                result@.take(i as int).lemma_filter_push(entry, free);
            }
            let mut found = false;
            let mut t: usize = 0;
            while t < taken.len()
                invariant
                    t <= taken.len(),
                    found <==> exists|j: int| 0 <= j < t && taken[j] == entry.0,
                decreases taken.len() - t,
            {
                if taken[t] == entry.0 {
                    found = true;
                }
                t = t + 1;
            }
            assert(found == taken@.contains(entry.0));
            if !found {
                others.push(entry);
            }
            i = i + 1;
        }
        assert(result@.take(result.len() as int) =~= result@);
        others
    }

    /// Pairs each first parent with the partner sampled for it.
    pub fn pair_up(&self, parents_1: &Vec<usize>, parents_2: &Vec<usize>) -> (pool: Vec<
        (usize, usize),
    >)
        requires
            parents_1.len() == parents_2.len(),
        ensures
            pool.len() == parents_1.len(),
            forall|k: int| 0 <= k < pool.len() ==> pool[k] == (parents_1[k], parents_2[k]),
    {
        let mut pool: Vec<(usize, usize)> = Vec::with_capacity(parents_1.len());
        let mut k: usize = 0;
        while k < parents_1.len()
            invariant
                k <= parents_1.len(),
                parents_1.len() == parents_2.len(),
                pool.len() == k,
                forall|j: int| 0 <= j < k ==> pool[j] == (parents_1[j], parents_2[j]),
            decreases parents_1.len() - k,
        {
            pool.push((parents_1[k], parents_2[k]));
            k = k + 1;
        }
        pool
    }
}

} // verus!
