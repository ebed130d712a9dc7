//! The steps that make the next generation: recombination of the mating
//! pool, mutation, the blend of offspring and parents, and the replacement
//! of slots at a restart.
use vstd::arithmetic::div_mod::lemma_div_is_ordered;
use vstd::prelude::*;

use crate::genotype::Genotype;
use crate::loader_config::{operator_fits, CrossOverMethod, PopType};
use crate::operators::{complement, flags_drawn_at};
use crate::population::{recombinable, recombined, uniform, Individual, Population};
use crate::random::RandomSource;
use crate::rate::{Rate, RATE_SCALE};
use crate::variation::mutated_by_draw;

verus! {

/// The share of slots that offspring take over in generation `generation`
/// of `total`: it rises in a straight line from `gap` at generation 0 to 1
/// at four fifths of the run, and stays at 1 from there on. In billionths,
/// rounded down.
pub open spec fn ramp(gap: int, generation: int, total: int) -> int {
    if 5 * generation < 4 * total {
        gap + ((RATE_SCALE - gap) * (5 * generation)) / (4 * total)
    } else {
        RATE_SCALE as int
    }
}

/// `offspring` holds, pair by pair of the mating pool, either the two
/// parents themselves or two children that `method` makes of them: always
/// the parents at chance 0, always children at chance 1.
pub open spec fn crossed_over(
    method: CrossOverMethod,
    chance: nat,
    parents: Seq<Genotype>,
    pool: Seq<(usize, usize)>,
    offspring: Seq<Genotype>,
) -> bool {
    &&& offspring.len() == 2 * pool.len()
    &&& forall|k: int|
        0 <= k < pool.len() ==> pair_crossed(
            method,
            chance,
            parents[(#[trigger] pool[k]).0 as int],
            parents[pool[k].1 as int],
            (offspring[2 * k], offspring[2 * k + 1]),
        )
    &&& exists|crosses: Seq<bool>| #[trigger]
        crossed_by(crosses, method, chance, parents, pool, offspring)
}

/// `offspring` holds what the draws `crosses` at `chance` lead to: for each
/// pair of the mating pool two children that `method` makes of the parents
/// where the draw for the pair says so, and else the parents themselves.
pub open spec fn crossed_by(
    crosses: Seq<bool>,
    method: CrossOverMethod,
    chance: nat,
    parents: Seq<Genotype>,
    pool: Seq<(usize, usize)>,
    offspring: Seq<Genotype>,
) -> bool {
    &&& crosses.len() == pool.len()
    &&& flags_drawn_at(crosses, chance)
    &&& forall|k: int|
        0 <= k < pool.len() ==> {
            let parent_1 = parents[(#[trigger] pool[k]).0 as int];
            let parent_2 = parents[pool[k].1 as int];
            let children = (offspring[2 * k], offspring[2 * k + 1]);
            if crosses[k] {
                recombined(method, parent_1, parent_2, children)
            } else {
                children == (parent_1, parent_2)
            }
        }
}

/// What holds of the two individuals that a pair of parents leaves in the
/// offspring.
pub open spec fn pair_crossed(
    method: CrossOverMethod,
    chance: nat,
    parent_1: Genotype,
    parent_2: Genotype,
    children: (Genotype, Genotype),
) -> bool {
    &&& children == (parent_1, parent_2) || recombined(method, parent_1, parent_2, children)
    &&& chance == 0 ==> children == (parent_1, parent_2)
    &&& chance == RATE_SCALE ==> recombined(method, parent_1, parent_2, children)
}

/// `after` is a mutant of `before`: it comes from it by a mutation at
/// `chance`. So it is of the same representation and length, well formed if
/// `before` is, equal to it at chance 0, and the complement of a bit vector
/// at chance 1.
pub open spec fn mutant_of(chance: nat, before: Genotype, after: Genotype) -> bool {
    &&& mutated_by_draw(chance, before, after)
    &&& after.kind() == before.kind()
    &&& after.dim() == before.dim()
    &&& before.wf() ==> after.wf()
    &&& chance == 0 ==> after == before
    &&& chance == RATE_SCALE && before is Binary ==> after == Genotype::Binary(
        complement(before.bits()),
    )
}

/// Slot by slot, `after` holds a mutant of what `before` holds.
pub open spec fn mutated(chance: nat, before: Seq<Genotype>, after: Seq<Genotype>) -> bool {
    &&& after.len() == before.len()
    &&& forall|i: int| 0 <= i < after.len() ==> mutant_of(chance, before[i], #[trigger] after[i])
}

/// Slot by slot, `next` holds the offspring or the individual that was
/// there: always the latter at share 0, always the offspring at share 1.
pub open spec fn blended(
    share: nat,
    offspring: Seq<Genotype>,
    current: Seq<Genotype>,
    next: Seq<Genotype>,
) -> bool {
    &&& next.len() == (if offspring.len() <= current.len() {
        offspring.len()
    } else {
        current.len()
    })
    &&& forall|i: int|
        0 <= i < next.len() ==> (#[trigger] next[i] == offspring[i] || next[i] == current[i])
    &&& share == 0 ==> forall|i: int| 0 <= i < next.len() ==> #[trigger] next[i] == current[i]
    &&& share == RATE_SCALE ==> forall|i: int|
        0 <= i < next.len() ==> #[trigger] next[i] == offspring[i]
    &&& exists|takes: Seq<bool>| #[trigger] taken_by(takes, share, offspring, current, next)
}

/// `next` holds what the draws `takes` at `share` lead to: in each slot the
/// offspring where the draw for the slot says so, and else the individual
/// that was there.
pub open spec fn taken_by(
    takes: Seq<bool>,
    share: nat,
    offspring: Seq<Genotype>,
    current: Seq<Genotype>,
    next: Seq<Genotype>,
) -> bool {
    &&& takes.len() == next.len()
    &&& flags_drawn_at(takes, share)
    &&& forall|i: int|
        0 <= i < next.len() ==> #[trigger] next[i] == if takes[i] {
            offspring[i]
        } else {
            current[i]
        }
}

/// `genotypes` after each of the first `count` slots named in `slots` has
/// been given the fresh individual of the same number.
pub open spec fn slots_replaced(
    genotypes: Seq<Genotype>,
    slots: Seq<usize>,
    fresh: Seq<Genotype>,
    count: nat,
) -> Seq<Genotype>
    decreases count,
{
    if count == 0 {
        genotypes
    } else {
        slots_replaced(genotypes, slots, fresh, (count - 1) as nat).update(
            slots[count - 1] as int,
            fresh[count - 1],
        )
    }
}

/// The share of slots that offspring take over starts at the gap, never
/// falls from one generation to the next, never exceeds 1, and is 1 from
/// four fifths of the run on.
pub proof fn lemma_ramp_rises(gap: int, earlier: int, later: int, total: int)
    requires
        0 <= gap <= RATE_SCALE,
        0 <= earlier <= later,
        0 <= total,
    ensures
        ramp(gap, 0, total) == if total > 0 {
            gap
        } else {
            RATE_SCALE as int
        },
        gap <= ramp(gap, earlier, total) <= ramp(gap, later, total) <= RATE_SCALE,
        5 * later >= 4 * total ==> ramp(gap, later, total) == RATE_SCALE,
{
    let rest = RATE_SCALE - gap;
    if 5 * later < 4 * total {
        assert(rest * (5 * earlier) <= rest * (5 * later)) by (nonlinear_arith)
            requires
                0 <= rest,
                0 <= earlier <= later,
        ;
        assert(0 <= rest * (5 * earlier)) by (nonlinear_arith)
            requires
                0 <= rest,
                0 <= earlier,
        ;
        assert(rest * (5 * later) <= rest * (4 * total)) by (nonlinear_arith)
            requires
                0 <= rest,
                5 * later < 4 * total,
        ;
        lemma_div_is_ordered(0, rest * (5 * earlier), 4 * total);
        lemma_div_is_ordered(rest * (5 * earlier), rest * (5 * later), 4 * total);
        lemma_div_is_ordered(rest * (5 * later), rest * (4 * total), 4 * total);
        assert((rest * (4 * total)) / (4 * total) == rest) by (nonlinear_arith)
            requires
                0 < total,
        ;
        assert(0int / (4 * total) == 0);
    } else if 5 * earlier < 4 * total {
        assert(rest * (5 * earlier) <= rest * (4 * total)) by (nonlinear_arith)
            requires
                0 <= rest,
                5 * earlier < 4 * total,
        ;
        assert(0 <= rest * (5 * earlier)) by (nonlinear_arith)
            requires
                0 <= rest,
                0 <= earlier,
        ;
        lemma_div_is_ordered(0, rest * (5 * earlier), 4 * total);
        lemma_div_is_ordered(rest * (5 * earlier), rest * (4 * total), 4 * total);
        assert((rest * (4 * total)) / (4 * total) == rest) by (nonlinear_arith)
            requires
                0 < total,
        ;
        assert(0int / (4 * total) == 0);
    }
    if total > 0 {
        assert(rest * (5 * 0) == 0) by (nonlinear_arith);
        assert(0int / (4 * total) == 0);
    }
}

/// Children that an operator makes of two parents of a population are fit
/// to take a slot in it.
pub proof fn lemma_recombined_fits(
    method: CrossOverMethod,
    kind: PopType,
    dim: nat,
    parent_1: Genotype,
    parent_2: Genotype,
    children: (Genotype, Genotype),
)
    requires
        operator_fits(method, kind),
        parent_1.fits(kind, dim),
        parent_2.fits(kind, dim),
        recombined(method, parent_1, parent_2, children),
    ensures
        children.0.fits(kind, dim),
        children.1.fits(kind, dim),
{
}

/// Two parents of a population whose representation the operator fits can
/// be recombined by it.
pub proof fn lemma_parents_recombinable(
    method: CrossOverMethod,
    kind: PopType,
    dim: nat,
    parent_1: Genotype,
    parent_2: Genotype,
)
    requires
        operator_fits(method, kind),
        dim > 0,
        parent_1.fits(kind, dim),
        parent_2.fits(kind, dim),
    ensures
        recombinable(method, parent_1, parent_2),
{
}

/// Replacing distinct slots writes each of them once: afterwards each named
/// slot holds its fresh individual and every other slot what it held.
pub proof fn lemma_slots_replaced(
    genotypes: Seq<Genotype>,
    slots: Seq<usize>,
    fresh: Seq<Genotype>,
    count: nat,
)
    requires
        count <= slots.len(),
        count <= fresh.len(),
        slots.no_duplicates(),
        forall|k: int| 0 <= k < slots.len() ==> #[trigger] slots[k] < genotypes.len(),
    ensures
        slots_replaced(genotypes, slots, fresh, count).len() == genotypes.len(),
        forall|k: int|
            0 <= k < count ==> slots_replaced(genotypes, slots, fresh, count)[#[trigger] slots[k] as int]
                == fresh[k],
        forall|i: int|
            0 <= i < genotypes.len() && (forall|k: int| 0 <= k < count ==> slots[k] != i)
                ==> #[trigger] slots_replaced(genotypes, slots, fresh, count)[i] == genotypes[i],
    decreases count,
{
    if count > 0 {
        lemma_slots_replaced(genotypes, slots, fresh, (count - 1) as nat);
        let before = slots_replaced(genotypes, slots, fresh, (count - 1) as nat);
        let after = slots_replaced(genotypes, slots, fresh, count);
        assert(slots[count - 1] < genotypes.len());
        assert forall|k: int| 0 <= k < count implies after[#[trigger] slots[k] as int]
            == fresh[k] by {
            if k < count - 1 {
                assert(slots[k] != slots[count - 1]);
                assert(before[slots[k] as int] == fresh[k]);
            }
        }
        assert forall|i: int|
            0 <= i < genotypes.len() && (forall|k: int|
                0 <= k < count ==> slots[k] != i) implies #[trigger] after[i] == genotypes[i] by {
            assert(slots[count - 1] != i);
            assert(forall|k: int| 0 <= k < count - 1 ==> slots[k] != i);
            assert(before[i] == genotypes[i]);
        }
    }
}

/// A uniform population stays uniform when slots of it receive individuals
/// of a population that is uniform in the same way.
pub proof fn lemma_slots_replaced_uniform(
    genotypes: Seq<Genotype>,
    slots: Seq<usize>,
    fresh: Seq<Genotype>,
    count: nat,
    kind: PopType,
    dim: nat,
)
    requires
        count <= slots.len(),
        count <= fresh.len(),
        forall|k: int| 0 <= k < slots.len() ==> #[trigger] slots[k] < genotypes.len(),
        uniform(genotypes, kind, dim),
        uniform(fresh, kind, dim),
    ensures
        slots_replaced(genotypes, slots, fresh, count).len() == genotypes.len(),
        uniform(slots_replaced(genotypes, slots, fresh, count), kind, dim),
    decreases count,
{
    if count > 0 {
        lemma_slots_replaced_uniform(genotypes, slots, fresh, (count - 1) as nat, kind, dim);
        assert(slots[count - 1] < genotypes.len());
        assert(fresh[count - 1].fits(kind, dim));
    }
}

/// The share of slots that offspring take over in generation `generation`
/// of `total`.
pub fn replacement_rate(gap: Rate, generation: usize, total: usize) -> (share: Rate)
    ensures
        share@ == ramp(gap@ as int, generation as int, total as int),
        gap@ <= share@,
{
    let g: u128 = generation as u128;
    let t: u128 = total as u128;
    let start: u32 = gap.parts();
    if 5 * g < 4 * t {
        let rest: u128 = (RATE_SCALE - start) as u128;
        assert(rest * (5 * g) <= 1_000_000_000 * (5 * 0x1_0000_0000_0000_0000)) by (nonlinear_arith)
            requires
                rest <= 1_000_000_000,
                g < 0x1_0000_0000_0000_0000,
        ;
        let rise: u128 = (rest * (5 * g)) / (4 * t);
        assert(rise <= rest) by (nonlinear_arith)
            requires
                rise == (rest * (5 * g)) / (4 * t),
                5 * g < 4 * t,
                0 <= rest,
                0 <= g,
        ;
        let parts: u32 = start + (rise as u32);
        Rate::new(parts).unwrap()
    } else {
        Rate::one()
    }
}

/// The two individuals that a pair of parents leaves in the offspring: two
/// children that `method` makes of them if the draw for the pair says
/// `cross`, and else the parents themselves.
pub fn pair_by(
    parent_1: &Individual,
    parent_2: &Individual,
    method: CrossOverMethod,
    cross: bool,
    rng: &mut RandomSource,
) -> (children: (Individual, Individual))
    requires
        cross ==> recombinable(method, parent_1@, parent_2@),
    ensures
        cross ==> recombined(method, parent_1@, parent_2@, (children.0@, children.1@)),
        !cross ==> (children.0@, children.1@) == (parent_1@, parent_2@),
{
    if cross {
        parent_1.crossover(parent_2, &method, rng)
    } else {
        (parent_1.clone(), parent_2.clone())
    }
}

/// The representation and the length that the first individual has, and
/// with it every individual of a population that is uniform.
pub open spec fn shape_of(genotypes: Seq<Genotype>) -> (PopType, nat) {
    (genotypes[0].kind(), genotypes[0].dim())
}

/// The offspring of the mating pool: for each pair, with probability
/// `chance`, two children that `method` makes of the parents, and else the
/// parents themselves.
pub fn recombine(
    population: &Population,
    pool: &Vec<(usize, usize)>,
    method: CrossOverMethod,
    chance: Rate,
    rng: &mut RandomSource,
) -> (offspring: Population)
    requires
        population@.len() > 0 ==> {
            &&& uniform(population@, shape_of(population@).0, shape_of(population@).1)
            &&& operator_fits(method, shape_of(population@).0)
            &&& shape_of(population@).1 > 0
        },
        forall|k: int|
            0 <= k < pool.len() ==> (#[trigger] pool[k]).0 < population@.len() && pool[k].1
                < population@.len(),
        2 * pool.len() <= usize::MAX,
    ensures
        crossed_over(method, chance@, population@, pool@, offspring@),
        uniform(offspring@, shape_of(population@).0, shape_of(population@).1),
{
    let ghost kind = shape_of(population@).0;
    let ghost dim = shape_of(population@).1;
    let mut individuals: Vec<Individual> = Vec::new();
    let ghost mut crosses: Seq<bool> = Seq::empty();
    let mut k: usize = 0;
    while k < pool.len()
        invariant
            k <= pool.len(),
            2 * pool.len() <= usize::MAX,
            crosses.len() == k,
            flags_drawn_at(crosses, chance@),
            forall|j: int|
                0 <= j < k ==> {
                    let parent_1 = population@[(#[trigger] pool[j]).0 as int];
                    let parent_2 = population@[pool[j].1 as int];
                    let children = (individuals[2 * j]@, individuals[2 * j + 1]@);
                    if crosses[j] {
                        recombined(method, parent_1, parent_2, children)
                    } else {
                        children == (parent_1, parent_2)
                    }
                },
            kind == shape_of(population@).0,
            dim == shape_of(population@).1,
            population@.len() > 0 ==> {
                &&& uniform(population@, kind, dim)
                &&& operator_fits(method, kind)
                &&& dim > 0
            },
            forall|j: int|
                0 <= j < pool.len() ==> (#[trigger] pool[j]).0 < population@.len() && pool[j].1
                    < population@.len(),
            individuals.len() == 2 * k,
            forall|i: int| 0 <= i < individuals.len() ==> (#[trigger] individuals[i]@).fits(
                kind,
                dim,
            ),
            forall|j: int|
                0 <= j < k ==> pair_crossed(
                    method,
                    chance@,
                    population@[(#[trigger] pool[j]).0 as int],
                    population@[pool[j].1 as int],
                    (individuals[2 * j]@, individuals[2 * j + 1]@),
                ),
        decreases pool.len() - k,
    {
        let (first, second) = pool[k];
        assert(pool@[k as int].0 < population@.len());
        let parent_1 = &population.individuals[first];
        let parent_2 = &population.individuals[second];
        assert(parent_1@ == population@[first as int]);
        assert(parent_2@ == population@[second as int]);
        assert(population@[first as int].fits(kind, dim));
        assert(population@[second as int].fits(kind, dim));
        let ghost before = individuals@;
        let ghost drawn = crosses;
        let cross = rng.chance(chance);
        proof {
            lemma_parents_recombinable(method, kind, dim, parent_1@, parent_2@);
        }
        let (child_1, child_2) = pair_by(parent_1, parent_2, method, cross, rng);
        proof {
            if cross {
                lemma_recombined_fits(
                    method,
                    kind,
                    dim,
                    parent_1@,
                    parent_2@,
                    (child_1@, child_2@),
                );
            }
        }
        individuals.push(child_1);
        individuals.push(child_2);
        proof {
            crosses = drawn.push(cross);
            assert forall|j: int| 0 <= j < k + 1 implies {
                let parent_1 = population@[(#[trigger] pool[j]).0 as int];
                let parent_2 = population@[pool[j].1 as int];
                let children = (individuals[2 * j]@, individuals[2 * j + 1]@);
                if crosses[j] {
                    recombined(method, parent_1, parent_2, children)
                } else {
                    children == (parent_1, parent_2)
                }
            } by {
                if j < k {
                    assert(crosses[j] == drawn[j]);
                    assert(individuals[2 * j] == before[2 * j]);
                    assert(individuals[2 * j + 1] == before[2 * j + 1]);
                }
            }
            assert forall|j: int| 0 <= j < k + 1 implies pair_crossed(
                method,
                chance@,
                population@[(#[trigger] pool[j]).0 as int],
                population@[pool[j].1 as int],
                (individuals[2 * j]@, individuals[2 * j + 1]@),
            ) by {
                if j < k {
                    assert(individuals[2 * j] == before[2 * j]);
                    assert(individuals[2 * j + 1] == before[2 * j + 1]);
                }
            }
        }
        k = k + 1;
    }
    let offspring = Population { individuals };
    assert(crossed_by(crosses, method, chance@, population@, pool@, offspring@));
    assert(crossed_over(method, chance@, population@, pool@, offspring@));
    offspring
}

/// A mutant of every individual of the population.
pub fn mutate_all(population: &Population, chance: Rate, rng: &mut RandomSource) -> (mutants:
    Population)
    ensures
        mutated(chance@, population@, mutants@),
{
    let n = population.individuals.len();
    let mut individuals: Vec<Individual> = Vec::with_capacity(n);
    let mut i: usize = 0;
    while i < n
        invariant
            i <= n,
            n == population.individuals.len(),
            individuals.len() == i,
            forall|k: int|
                0 <= k < i ==> mutant_of(chance@, population@[k], #[trigger] individuals[k]@),
        decreases n - i,
    {
        let mutant = population.individuals[i].mutate(chance, rng);
        assert(population@[i as int] == population.individuals[i as int]@);
        individuals.push(mutant);
        i = i + 1;
    }
    Population { individuals }
}

/// The individual that takes a slot of the next population: the offspring
/// if the draw for the slot says `take`, and else the individual that holds
/// the slot.
pub fn slot_by(offspring: &Individual, current: &Individual, take: bool) -> (chosen: Individual)
    ensures
        chosen@ == if take {
            offspring@
        } else {
            current@
        },
{
    if take {
        offspring.clone()
    } else {
        current.clone()
    }
}

/// The next population: slot by slot the offspring with probability
/// `share`, and else the individual that holds the slot.
pub fn blend(offspring: &Population, current: &Population, share: Rate, rng: &mut RandomSource) -> (next:
    Population)
    ensures
        blended(share@, offspring@, current@, next@),
{
    let n = if offspring.individuals.len() <= current.individuals.len() {
        offspring.individuals.len()
    } else {
        current.individuals.len()
    };
    let mut individuals: Vec<Individual> = Vec::with_capacity(n);
    let ghost mut takes: Seq<bool> = Seq::empty();
    let mut i: usize = 0;
    while i < n
        invariant
            i <= n,
            n <= offspring.individuals.len(),
            n <= current.individuals.len(),
            individuals.len() == i,
            takes.len() == i,
            flags_drawn_at(takes, share@),
            forall|k: int|
                0 <= k < i ==> #[trigger] individuals[k]@ == if takes[k] {
                    offspring@[k]
                } else {
                    current@[k]
                },
            forall|k: int|
                0 <= k < i ==> (#[trigger] individuals[k]@ == offspring@[k] || individuals[k]@
                    == current@[k]),
            share@ == 0 ==> forall|k: int| 0 <= k < i ==> #[trigger] individuals[k]@ == current@[k],
            share@ == RATE_SCALE ==> forall|k: int|
                0 <= k < i ==> #[trigger] individuals[k]@ == offspring@[k],
        decreases n - i,
    {
        let take = rng.chance(share);
        let chosen = slot_by(&offspring.individuals[i], &current.individuals[i], take);
        individuals.push(chosen);
        proof {
            takes = takes.push(take);
        }
        i = i + 1;
    }
    let next = Population { individuals };
    assert(taken_by(takes, share@, offspring@, current@, next@));
    next
}

/// Gives each of the first `count` slots named in `slots` the fresh
/// individual of the same number.
pub fn replace_slots(population: &mut Population, slots: &Vec<usize>, fresh: &Population, count: usize)
    requires
        count <= slots.len(),
        count <= fresh@.len(),
        forall|k: int| 0 <= k < slots.len() ==> #[trigger] slots[k] < old(population)@.len(),
    ensures
        final(population)@ == slots_replaced(old(population)@, slots@, fresh@, count as nat),
        final(population)@.len() == old(population)@.len(),
{
    let mut k: usize = 0;
    while k < count
        invariant
            k <= count,
            count <= slots.len(),
            count <= fresh@.len(),
            population@.len() == old(population)@.len(),
            forall|j: int| 0 <= j < slots.len() ==> #[trigger] slots[j] < population@.len(),
            population@ == slots_replaced(old(population)@, slots@, fresh@, k as nat),
        decreases count - k,
    {
        let slot = slots[k];
        let newcomer = fresh.individuals[k].clone();
        let ghost before = population@;
        population.individuals.set(slot, newcomer);
        assert(population@ =~= before.update(slot as int, fresh@[k as int]));
        k = k + 1;
    }
}

} // verus!
