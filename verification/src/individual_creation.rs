//! Chromosomes recombined at a cut point that the caller names, and the
//! individuals and populations that wrap them.
use vstd::pervasive::unreached;
use vstd::prelude::*;

use crate::cycle::{compatible, cycle_children, cycle_crossover};
use crate::genotype::{bits_text, order_text, Genotype};
use crate::cycle::lemma_cycle_children;
use crate::operators::{
    complement, complementary, drawn_from_parents, exchange_range, exchanged,
    lemma_exchanged_from_parents,
};
use crate::random::RandomSource;
use crate::rate::{Rate, RATE_SCALE};
use crate::variation::{
    mutate_bits, mutate_order, mutated_by_draw, random_bits, random_order,
};

verus! {

/// A chromosome: a bit vector, or a permutation of `0..dim`.
#[derive(Debug)]
pub enum IndividualType {
    Binary(Vec<bool>),
    Permuted(Vec<usize>),
}

impl View for IndividualType {
    type V = Genotype;

    open spec fn view(&self) -> Genotype {
        match self {
            IndividualType::Binary(genes) => Genotype::Binary(genes@),
            IndividualType::Permuted(genes) => Genotype::Permuted(genes@),
        }
    }
}

impl Clone for IndividualType {
    fn clone(&self) -> (copy: Self)
        ensures
            copy@ == self@,
    {
        match self {
            IndividualType::Binary(genes) => {
                let copy = genes.clone();
                assert(copy@ =~= genes@);
                IndividualType::Binary(copy)
            },
            IndividualType::Permuted(genes) => {
                let copy = genes.clone();
                assert(copy@ =~= genes@);
                IndividualType::Permuted(copy)
            },
        }
    }
}

/// The two chromosomes can be recombined: they are bit vectors, or
/// permutations of the same, non-zero length.
pub open spec fn crossable(parent_1: Genotype, parent_2: Genotype) -> bool {
    match (parent_1, parent_2) {
        (Genotype::Binary(_), Genotype::Binary(_)) => true,
        (Genotype::Permuted(first), Genotype::Permuted(second)) => compatible(first, second),
        _ => false,
    }
}

/// The children of two chromosomes. Bit vectors exchange the genes before
/// `crossover_point`; permutations undergo a cycle crossover, for which the
/// point plays no part.
pub open spec fn crossed(parent_1: Genotype, parent_2: Genotype, crossover_point: int) -> (
    Genotype,
    Genotype,
) {
    match (parent_1, parent_2) {
        (Genotype::Binary(first), Genotype::Binary(second)) => (
            Genotype::Binary(exchanged(first, second, 0, crossover_point)),
            Genotype::Binary(exchanged(second, first, 0, crossover_point)),
        ),
        (Genotype::Permuted(first), Genotype::Permuted(second)) => (
            Genotype::Permuted(cycle_children(first, second).0),
            Genotype::Permuted(cycle_children(first, second).1),
        ),
        _ => (parent_1, parent_2),
    }
}

/// The children of two bit vectors hold no gene that the parents lack, and
/// the children of two permutations are permutations: at each slot the two
/// children hold the two parents' genes of that slot, one each.
pub proof fn lemma_crossed_from_parents(
    parent_1: Genotype,
    parent_2: Genotype,
    crossover_point: int,
)
    requires
        crossable(parent_1, parent_2),
        parent_1.wf(),
        parent_2.wf(),
    ensures
        match (parent_1, parent_2) {
            (Genotype::Binary(first), Genotype::Binary(second)) => {
                let children = crossed(parent_1, parent_2, crossover_point);
                &&& drawn_from_parents(children.0.bits(), first, second)
                &&& drawn_from_parents(children.1.bits(), first, second)
                &&& complementary(children.0.bits(), children.1.bits(), first, second)
            },
            (Genotype::Permuted(first), Genotype::Permuted(second)) => {
                let children = crossed(parent_1, parent_2, crossover_point);
                &&& children.0.fits(parent_1.kind(), parent_1.dim())
                &&& children.1.fits(parent_1.kind(), parent_1.dim())
                &&& complementary(children.0.order(), children.1.order(), first, second)
            },
            _ => true,
        },
{
    match (parent_1, parent_2) {
        (Genotype::Binary(first), Genotype::Binary(second)) => {
            lemma_exchanged_from_parents(first, second, 0, crossover_point);
        },
        (Genotype::Permuted(first), Genotype::Permuted(second)) => {
            lemma_cycle_children(first, second);
        },
        _ => {},
    }
}

impl IndividualType {
    /// The genes as text, listed between square brackets.
    pub fn to_text(&self) -> (text: String)
        ensures
            text@ == self@.as_text(),
    {
        match self {
            IndividualType::Binary(genes) => bits_text(genes),
            IndividualType::Permuted(genes) => order_text(genes),
        }
    }

    /// A mutant of the chromosome. A bit vector has each bit flipped with
    /// probability `mutation_chance`; a permutation has each slot, with that
    /// probability, exchange its value with a slot drawn at random.
    pub fn mutate(&self, mutation_chance: Rate, rng: &mut RandomSource) -> (mutant: Self)
        ensures
            mutated_by_draw(mutation_chance@, self@, mutant@),
            mutant@.kind() == self@.kind(),
            mutant@.dim() == self@.dim(),
            self@.wf() ==> mutant@.wf(),
            mutation_chance@ == 0 ==> mutant@ == self@,
            mutation_chance@ == RATE_SCALE && self@ is Binary ==> mutant@ == Genotype::Binary(
                complement(self@.bits()),
            ),
    {
        match self {
            IndividualType::Binary(genes) => IndividualType::Binary(
                mutate_bits(genes, mutation_chance, rng),
            ),
            IndividualType::Permuted(genes) => IndividualType::Permuted(
                mutate_order(genes, mutation_chance, rng),
            ),
        }
    }

    /// The two children of the chromosome and `parent_2`.
    pub fn crossover(&self, parent_2: &IndividualType, crossover_point: usize) -> (children: (
        Self,
        Self,
    ))
        requires
            crossable(self@, parent_2@),
        ensures
            (children.0@, children.1@) == crossed(self@, parent_2@, crossover_point as int),
            self@.wf() ==> children.0@.wf() && children.1@.wf(),
    {
        match (self, parent_2) {
            (IndividualType::Binary(genes_1), IndividualType::Binary(genes_2)) => {
                let (child_1, child_2) = exchange_range(genes_1, genes_2, 0, crossover_point);
                (IndividualType::Binary(child_1), IndividualType::Binary(child_2))
            },
            (IndividualType::Permuted(genes_1), IndividualType::Permuted(genes_2)) => {
                let (child_1, child_2) = cycle_crossover(genes_1, genes_2);
                (IndividualType::Permuted(child_1), IndividualType::Permuted(child_2))
            },
            _ => unreached(),
        }
    }
}

/// An individual: the holder of one chromosome.
#[derive(Debug)]
pub struct Individual {
    pub chromosome: IndividualType,
}

impl View for Individual {
    type V = Genotype;

    open spec fn view(&self) -> Genotype {
        self.chromosome@
    }
}

impl Clone for Individual {
    fn clone(&self) -> (copy: Self)
        ensures
            copy@ == self@,
    {
        Individual { chromosome: self.chromosome.clone() }
    }
}

impl Individual {
    /// A random individual of `dim` genes, of the same representation as
    /// `individual_type`: fair bits, or a shuffled order.
    pub fn new(dim: usize, individual_type: &IndividualType, rng: &mut RandomSource) -> (individual:
        Self)
        ensures
            individual@.fits(individual_type@.kind(), dim as nat),
    {
        let chromosome = match individual_type {
            IndividualType::Binary(_) => IndividualType::Binary(random_bits(dim, rng)),
            IndividualType::Permuted(_) => IndividualType::Permuted(random_order(dim, rng)),
        };
        Individual { chromosome }
    }

    /// A mutant of the individual: see [`IndividualType::mutate`].
    pub fn mutate(&self, mutation_chance: Rate, rng: &mut RandomSource) -> (mutant: Self)
        ensures
            mutated_by_draw(mutation_chance@, self@, mutant@),
            mutant@.kind() == self@.kind(),
            mutant@.dim() == self@.dim(),
            self@.wf() ==> mutant@.wf(),
            mutation_chance@ == 0 ==> mutant@ == self@,
            mutation_chance@ == RATE_SCALE && self@ is Binary ==> mutant@ == Genotype::Binary(
                complement(self@.bits()),
            ),
    {
        Individual { chromosome: self.chromosome.mutate(mutation_chance, rng) }
    }

    /// The two children of the individual and `parent_2`: see
    /// [`IndividualType::crossover`].
    pub fn crossover(&self, parent_2: &Individual, crossover_point: usize) -> (children: (
        Self,
        Self,
    ))
        requires
            crossable(self@, parent_2@),
        ensures
            (children.0@, children.1@) == crossed(self@, parent_2@, crossover_point as int),
            self@.wf() ==> children.0@.wf() && children.1@.wf(),
    {
        let (child_1, child_2) = self.chromosome.crossover(&parent_2.chromosome, crossover_point);
        (Individual { chromosome: child_1 }, Individual { chromosome: child_2 })
    }
}

/// Individuals in slot order.
#[derive(Debug)]
pub struct Population {
    pub individuals: Vec<Individual>,
}

impl View for Population {
    type V = Seq<Genotype>;

    open spec fn view(&self) -> Seq<Genotype> {
        Seq::new(self.individuals@.len(), |i: int| self.individuals@[i]@)
    }
}

impl Clone for Population {
    fn clone(&self) -> (copy: Self)
        ensures
            copy@ == self@,
    {
        let n = self.individuals.len();
        let mut individuals: Vec<Individual> = Vec::with_capacity(n);
        let mut i: usize = 0;
        while i < n
            invariant
                i <= n,
                n == self.individuals.len(),
                individuals.len() == i,
                forall|k: int| 0 <= k < i ==> individuals[k]@ == self.individuals[k]@,
            decreases n - i,
        {
            individuals.push(self.individuals[i].clone());
            i = i + 1;
        }
        let copy = Population { individuals };
        assert(copy@ =~= self@);
        copy
    }
}

impl Population {
    /// `qtd_individuals` random individuals of `dim` genes each, of the same
    /// representation as `individual_type`.
    pub fn new(
        qtd_individuals: usize,
        dim: usize,
        individual_type: &IndividualType,
        rng: &mut RandomSource,
    ) -> (population: Self)
        ensures
            population@.len() == qtd_individuals,
            forall|i: int|
                0 <= i < qtd_individuals ==> (#[trigger] population@[i]).fits(
                    individual_type@.kind(),
                    dim as nat,
                ),
    {
        let mut individuals: Vec<Individual> = Vec::with_capacity(qtd_individuals);
        let mut i: usize = 0;
        while i < qtd_individuals
            invariant
                i <= qtd_individuals,
                individuals.len() == i,
                forall|k: int|
                    0 <= k < i ==> (#[trigger] individuals[k]@).fits(
                        individual_type@.kind(),
                        dim as nat,
                    ),
            decreases qtd_individuals - i,
        {
            individuals.push(Individual::new(dim, individual_type, rng));
            i = i + 1;
        }
        Population { individuals }
    }
}

} // verus!
