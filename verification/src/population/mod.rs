//! Individuals and the population that the engine evolves.
pub mod crossover;

use vstd::pervasive::unreached;
use vstd::prelude::*;

use crate::genotype::{bits_text, order_text, Genotype};
use crate::loader_config::{CrossOverMethod, PopType};
use crate::cycle::{lemma_cycle_children, lemma_cycle_symmetric};
use crate::operators::{complement, complementary, drawn_from_parents};
use crate::partially_mapped::lemma_pmx_symmetric;
use crate::population::crossover::{cycle_offspring, partially_mapped_offspring, permuted_pair};
use crate::permutation::check_permutation;
use crate::population::crossover::{
    Crossover, CycleCrossover, OnePointCrossover, PartiallyMappedCrossover, TwoPointsCrossover,
    UniformCrossover,
};
use crate::random::RandomSource;
use crate::rate::{Rate, RATE_SCALE};
use crate::variation::{
    mutate_bits, mutate_order, mutated_by_draw, random_bits, random_order,
};

verus! {

/// One candidate solution: a bit vector, or a permutation of `0..dim`.
#[derive(Debug)]
pub enum Individual {
    Binary(Vec<bool>),
    Permuted(Vec<usize>),
}

impl View for Individual {
    type V = Genotype;

    open spec fn view(&self) -> Genotype {
        match self {
            Individual::Binary(genes) => Genotype::Binary(genes@),
            Individual::Permuted(genes) => Genotype::Permuted(genes@),
        }
    }
}

impl Clone for Individual {
    fn clone(&self) -> (copy: Self)
        ensures
            copy@ == self@,
    {
        match self {
            Individual::Binary(genes) => {
                let copy = genes.clone();
                assert(copy@ =~= genes@);
                Individual::Binary(copy)
            },
            Individual::Permuted(genes) => {
                let copy = genes.clone();
                assert(copy@ =~= genes@);
                Individual::Permuted(copy)
            },
        }
    }
}

/// The parents can be recombined by `method`: bit vectors by the one-point,
/// two-point and uniform operators, permutations of one length by the cycle
/// and the partially mapped operator.
pub open spec fn recombinable(
    method: CrossOverMethod,
    parent_1: Genotype,
    parent_2: Genotype,
) -> bool {
    match method {
        CrossOverMethod::OnePoint => OnePointCrossover::accepts(parent_1, parent_2),
        CrossOverMethod::TwoPoints => TwoPointsCrossover::accepts(parent_1, parent_2),
        CrossOverMethod::Uniform => UniformCrossover::accepts(parent_1, parent_2),
        CrossOverMethod::Cycle => CycleCrossover::accepts(parent_1, parent_2),
        CrossOverMethod::Permuted => PartiallyMappedCrossover::accepts(parent_1, parent_2),
    }
}

/// What holds of the children that `method` makes of the parents.
pub open spec fn recombined(
    method: CrossOverMethod,
    parent_1: Genotype,
    parent_2: Genotype,
    children: (Genotype, Genotype),
) -> bool {
    match method {
        CrossOverMethod::OnePoint => OnePointCrossover::yields(parent_1, parent_2, children),
        CrossOverMethod::TwoPoints => TwoPointsCrossover::yields(parent_1, parent_2, children),
        CrossOverMethod::Uniform => UniformCrossover::yields(parent_1, parent_2, children),
        CrossOverMethod::Cycle => CycleCrossover::yields(parent_1, parent_2, children),
        CrossOverMethod::Permuted => PartiallyMappedCrossover::yields(parent_1, parent_2, children),
    }
}

/// The one-point, two-point and uniform operators bring in no gene of their
/// own: at each slot the two children hold the two parents' genes of that
/// slot, one each.
pub proof fn lemma_binary_children_from_parents(
    method: CrossOverMethod,
    parent_1: Genotype,
    parent_2: Genotype,
    children: (Genotype, Genotype),
)
    requires
        method == CrossOverMethod::OnePoint || method == CrossOverMethod::TwoPoints || method
            == CrossOverMethod::Uniform,
        parent_1 is Binary,
        parent_2 is Binary,
        parent_1.dim() == parent_2.dim(),
        recombined(method, parent_1, parent_2, children),
    ensures
        children.0 is Binary,
        children.1 is Binary,
        drawn_from_parents(children.0.bits(), parent_1.bits(), parent_2.bits()),
        drawn_from_parents(children.1.bits(), parent_1.bits(), parent_2.bits()),
        complementary(children.0.bits(), children.1.bits(), parent_1.bits(), parent_2.bits()),
{
    let first = parent_1.bits();
    let second = parent_2.bits();
    let child_1 = children.0.bits();
    let child_2 = children.1.bits();
    assert(complementary(child_1, child_2, first, second));
    assert forall|i: int| 0 <= i < child_2.len() implies #[trigger] child_2[i] == first[i]
        || child_2[i] == second[i] by {
        assert(child_1[i] == first[i] || child_1[i] == second[i]);
    }
}

/// The children that the cycle and the partially mapped operator make of
/// two permutations are permutations of the same length.
pub proof fn lemma_permuted_children_are_permutations(
    method: CrossOverMethod,
    parent_1: Genotype,
    parent_2: Genotype,
    children: (Genotype, Genotype),
)
    requires
        method == CrossOverMethod::Cycle || method == CrossOverMethod::Permuted,
        permuted_pair(parent_1, parent_2),
        recombined(method, parent_1, parent_2, children),
    ensures
        children.0.fits(PopType::Permuted, parent_1.dim()),
        children.1.fits(PopType::Permuted, parent_1.dim()),
        children.0.wf(),
        children.1.wf(),
{
}

/// A cycle crossover of the parents in exchanged roles gives the same two
/// children in exchanged roles, and the children split the slots between
/// them: at each slot one holds the first parent's value and the other the
/// second parent's.
pub proof fn lemma_cycle_roles_exchange(parent_1: Genotype, parent_2: Genotype)
    requires
        permuted_pair(parent_1, parent_2),
    ensures
        cycle_offspring(parent_2.order(), parent_1.order()) == (
            cycle_offspring(parent_1.order(), parent_2.order()).1,
            cycle_offspring(parent_1.order(), parent_2.order()).0,
        ),
        complementary(
            cycle_offspring(parent_1.order(), parent_2.order()).0.order(),
            cycle_offspring(parent_1.order(), parent_2.order()).1.order(),
            parent_1.order(),
            parent_2.order(),
        ),
{
    lemma_cycle_symmetric(parent_1.order(), parent_2.order());
    lemma_cycle_children(parent_1.order(), parent_2.order());
}

/// A partially mapped crossover of the parents in exchanged roles, cut at
/// the same points, gives the same two children in exchanged roles, and
/// between the cuts each child holds the other parent's values.
pub proof fn lemma_partially_mapped_roles_exchange(
    parent_1: Genotype,
    parent_2: Genotype,
    cut_1: int,
    cut_2: int,
)
    requires
        permuted_pair(parent_1, parent_2),
    ensures
        partially_mapped_offspring(parent_2.order(), parent_1.order(), cut_1, cut_2) == (
            partially_mapped_offspring(parent_1.order(), parent_2.order(), cut_1, cut_2).1,
            partially_mapped_offspring(parent_1.order(), parent_2.order(), cut_1, cut_2).0,
        ),
        forall|i: int|
            cut_1 <= i < cut_2 && 0 <= i < parent_1.dim() ==> partially_mapped_offspring(
                parent_1.order(),
                parent_2.order(),
                cut_1,
                cut_2,
            ).0.order()[i] == parent_2.order()[i] && partially_mapped_offspring(
                parent_1.order(),
                parent_2.order(),
                cut_1,
                cut_2,
            ).1.order()[i] == parent_1.order()[i],
{
    lemma_pmx_symmetric(parent_1.order(), parent_2.order(), cut_1, cut_2);
}

impl Individual {
    /// The number of genes.
    pub fn dim(&self) -> (dim: usize)
        ensures
            dim == self@.dim(),
    {
        match self {
            Individual::Binary(genes) => genes.len(),
            Individual::Permuted(genes) => genes.len(),
        }
    }

    /// Tells whether the individual is well formed, of the given
    /// representation and length.
    pub fn fits(&self, pop_type: &PopType, dim: usize) -> (ok: bool)
        ensures
            ok == self@.fits(*pop_type, dim as nat),
    {
        match self {
            Individual::Binary(genes) => {
                match pop_type {
                    PopType::Binary => genes.len() == dim,
                    _ => false,
                }
            },
            Individual::Permuted(genes) => {
                match pop_type {
                    PopType::Permuted => genes.len() == dim && check_permutation(genes),
                    _ => false,
                }
            },
        }
    }

    /// Tells whether the individual keeps the invariant of its
    /// representation.
    pub fn is_valid(&self) -> (valid: bool)
        ensures
            valid == self@.wf(),
    {
        match self {
            Individual::Binary(_) => true,
            Individual::Permuted(genes) => check_permutation(genes),
        }
    }

    /// The genes as text, listed between square brackets.
    pub fn to_text(&self) -> (text: String)
        ensures
            text@ == self@.as_text(),
    {
        match self {
            Individual::Binary(genes) => bits_text(genes),
            Individual::Permuted(genes) => order_text(genes),
        }
    }

    /// A mutant of the individual. A bit vector has each bit flipped with
    /// probability `mutation_chance`; a permutation has each slot, with that
    /// probability, exchange its value with a slot drawn at random.
    pub fn mutate(&self, mutation_chance: Rate, rng: &mut RandomSource) -> (mutant: Self)
        ensures
            mutated_by_draw(mutation_chance@, self@, mutant@),
            mutant@.kind() == self@.kind(),
            mutant@.dim() == self@.dim(),
            self@.wf() ==> mutant@.wf(),
            mutation_chance@ == 0 ==> mutant@ == self@,
            mutation_chance@ == RATE_SCALE && self@ is Binary ==> mutant@ == Genotype::Binary(
                complement(self@.bits()),
            ),
    {
        match self {
            Individual::Binary(genes) => Individual::Binary(
                mutate_bits(genes, mutation_chance, rng),
            ),
            Individual::Permuted(genes) => Individual::Permuted(
                mutate_order(genes, mutation_chance, rng),
            ),
        }
    }

    /// The two children that `crossover_method` makes of the individual and
    /// `parent_2`.
    pub fn crossover(
        &self,
        parent_2: &Individual,
        crossover_method: &CrossOverMethod,
        rng: &mut RandomSource,
    ) -> (children: (Self, Self))
        requires
            recombinable(*crossover_method, self@, parent_2@),
        ensures
            recombined(*crossover_method, self@, parent_2@, (children.0@, children.1@)),
    {
        match crossover_method {
            CrossOverMethod::OnePoint => OnePointCrossover::crossover(self, parent_2, rng),
            CrossOverMethod::TwoPoints => TwoPointsCrossover::crossover(self, parent_2, rng),
            CrossOverMethod::Uniform => UniformCrossover::crossover(self, parent_2, rng),
            CrossOverMethod::Cycle => CycleCrossover::crossover(self, parent_2, rng),
            CrossOverMethod::Permuted => PartiallyMappedCrossover::crossover(self, parent_2, rng),
        }
    }

    /// A random individual of `dim` genes: fair bits, or a shuffled order.
    pub fn new(dim: usize, individual_type: &PopType, rng: &mut RandomSource) -> (individual: Self)
        requires
            *individual_type == PopType::Binary || *individual_type == PopType::Permuted,
        ensures
            individual@.fits(*individual_type, dim as nat),
    {
        match individual_type {
            PopType::Binary => Individual::Binary(random_bits(dim, rng)),
            PopType::Permuted => Individual::Permuted(random_order(dim, rng)),
            _ => unreached(),
        }
    }
}

/// The individuals of one generation, in slot order.
#[derive(Debug)]
pub struct Population {
    pub individuals: Vec<Individual>,
}

impl View for Population {
    type V = Seq<Genotype>;

    open spec fn view(&self) -> Seq<Genotype> {
        Seq::new(self.individuals@.len(), |i: int| self.individuals@[i]@)
    }
}

/// Every genotype is well formed, of the given representation and length.
pub open spec fn uniform(genotypes: Seq<Genotype>, kind: PopType, dim: nat) -> bool {
    forall|i: int| 0 <= i < genotypes.len() ==> (#[trigger] genotypes[i]).fits(kind, dim)
}

impl Clone for Population {
    fn clone(&self) -> (copy: Self)
        ensures
            copy@ == self@,
    {
        let n = self.individuals.len();
        let mut individuals: Vec<Individual> = Vec::with_capacity(n);
        let mut i: usize = 0;
        while i < n
            invariant
                i <= n,
                n == self.individuals.len(),
                individuals.len() == i,
                forall|k: int| 0 <= k < i ==> individuals[k]@ == self.individuals[k]@,
            decreases n - i,
        {
            individuals.push(self.individuals[i].clone());
            i = i + 1;
        }
        let copy = Population { individuals };
        assert(copy@ =~= self@);
        copy
    }
}

impl Population {
    /// `qtd_individuals` random individuals of `dim` genes each.
    pub fn new(qtd_individuals: usize, dim: usize, pop_type: &PopType, rng: &mut RandomSource) -> (population:
        Self)
        requires
            *pop_type == PopType::Binary || *pop_type == PopType::Permuted,
        ensures
            population@.len() == qtd_individuals,
            uniform(population@, *pop_type, dim as nat),
    {
        let mut individuals: Vec<Individual> = Vec::with_capacity(qtd_individuals);
        let mut i: usize = 0;
        while i < qtd_individuals
            invariant
                i <= qtd_individuals,
                individuals.len() == i,
                *pop_type == PopType::Binary || *pop_type == PopType::Permuted,
                forall|k: int| 0 <= k < i ==> (#[trigger] individuals[k]@).fits(*pop_type, dim as nat),
            decreases qtd_individuals - i,
        {
            individuals.push(Individual::new(dim, pop_type, rng));
            i = i + 1;
        }
        Population { individuals }
    }

    /// Tells whether every individual is well formed, of the given
    /// representation and length.
    pub fn fits(&self, pop_type: &PopType, dim: usize) -> (ok: bool)
        ensures
            ok == uniform(self@, *pop_type, dim as nat),
    {
        let mut i: usize = 0;
        while i < self.individuals.len()
            invariant
                i <= self.individuals.len(),
                forall|k: int| 0 <= k < i ==> (#[trigger] self@[k]).fits(*pop_type, dim as nat),
            decreases self.individuals.len() - i,
        {
            if !self.individuals[i].fits(pop_type, dim) {
                assert(!self@[i as int].fits(*pop_type, dim as nat));
                return false;
            }
            i = i + 1;
        }
        true
    }

    /// The number of individuals.
    pub fn len(&self) -> (len: usize)
        ensures
            len == self@.len(),
    {
        self.individuals.len()
    }
}

} // verus!
