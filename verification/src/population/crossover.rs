//! The recombination operators: each makes two children of two parents.
use vstd::pervasive::unreached;
use vstd::prelude::*;

use crate::cycle::{compatible, cycle_children, cycle_crossover};
use crate::genotype::Genotype;
use crate::operators::{
    chosen, common_len, complementary, exchange_range, exchange_unmarked, exchanged,
    lemma_chosen_from_parents,
};
use crate::partially_mapped::{partially_mapped_crossover, pmx_children};
use crate::population::Individual;
use crate::random::RandomSource;
use crate::rate::Rate;
use crate::variation::draw_flags;

verus! {

/// Two bit vectors, the first of which has a gene to cut at.
pub open spec fn binary_pair(parent_1: Genotype, parent_2: Genotype) -> bool {
    &&& parent_1 is Binary
    &&& parent_2 is Binary
    &&& parent_1.dim() > 0
}

/// Two permutations of the same, non-zero length.
pub open spec fn permuted_pair(parent_1: Genotype, parent_2: Genotype) -> bool {
    &&& parent_1 matches Genotype::Permuted(first)
    &&& parent_2 matches Genotype::Permuted(second)
    &&& compatible(first, second)
}

/// The children of a one-point crossover cut at `cut`: each keeps its own
/// parent's genes before the cut and takes the other parent's from the cut
/// on.
pub open spec fn one_point_children(first: Seq<bool>, second: Seq<bool>, cut: int) -> (
    Genotype,
    Genotype,
) {
    let end = common_len(first, second) as int;
    (
        Genotype::Binary(exchanged(first, second, cut, end)),
        Genotype::Binary(exchanged(second, first, cut, end)),
    )
}

/// The children of a two-point crossover cut at `cut_1` and `cut_2`: each
/// takes the other parent's genes between the cuts and keeps its own
/// parent's elsewhere.
pub open spec fn two_points_children(
    first: Seq<bool>,
    second: Seq<bool>,
    cut_1: int,
    cut_2: int,
) -> (Genotype, Genotype) {
    (
        Genotype::Binary(exchanged(first, second, cut_1, cut_2)),
        Genotype::Binary(exchanged(second, first, cut_1, cut_2)),
    )
}

/// The children of the cycle crossover of two permutations.
pub open spec fn cycle_offspring(first: Seq<usize>, second: Seq<usize>) -> (Genotype, Genotype) {
    (
        Genotype::Permuted(cycle_children(first, second).0),
        Genotype::Permuted(cycle_children(first, second).1),
    )
}

/// The children of the partially mapped crossover of two permutations cut
/// at `cut_1` and `cut_2`.
pub open spec fn partially_mapped_offspring(
    first: Seq<usize>,
    second: Seq<usize>,
    cut_1: int,
    cut_2: int,
) -> (Genotype, Genotype) {
    (
        Genotype::Permuted(pmx_children(first, second, cut_1, cut_2).0),
        Genotype::Permuted(pmx_children(first, second, cut_1, cut_2).1),
    )
}

/// What a draw of two cut points leads to. The first cut is any slot of the
/// first parent. Where it is the last slot there is no room for a second
/// cut and the parents pass through; else the second cut is any later slot
/// and the children are `offspring` at the two cuts.
pub open spec fn cut_twice(
    parent_1: Genotype,
    parent_2: Genotype,
    offspring: spec_fn(int, int) -> (Genotype, Genotype),
    children: (Genotype, Genotype),
) -> bool {
    exists|cut_1: int, cut_2: int|
        0 <= cut_1 < parent_1.dim() && (if cut_1 >= parent_1.dim() - 1 {
            children == (parent_1, parent_2)
        } else {
            cut_1 < cut_2 < parent_1.dim() && children == #[trigger] offspring(cut_1, cut_2)
        })
}

/// A recombination operator.
pub trait Crossover: Sized {
    /// The pairs of parents that the operator recombines.
    spec fn accepts(parent_1: Genotype, parent_2: Genotype) -> bool;

    /// What holds of the children, whatever was drawn.
    spec fn yields(parent_1: Genotype, parent_2: Genotype, children: (Genotype, Genotype)) -> bool;

    /// Recombines two parents into two children.
    fn crossover(parent_1: &Individual, parent_2: &Individual, rng: &mut RandomSource) -> (children:
        (Individual, Individual))
        requires
            Self::accepts(parent_1@, parent_2@),
        ensures
            Self::yields(parent_1@, parent_2@, (children.0@, children.1@)),
    ;
}

/// One cut: the children exchange everything from the cut on.
pub struct OnePointCrossover {}

/// Two cuts: the children exchange what lies between them.
pub struct TwoPointsCrossover {}

/// A fair coin for each slot: the children exchange the slot or keep it.
pub struct UniformCrossover {}

/// The children exchange every slot that is not on the cycle through slot 0.
pub struct CycleCrossover {}

/// Two cuts: the children exchange what lies between them and remap what
/// would occur twice.
pub struct PartiallyMappedCrossover {}

impl OnePointCrossover {
    /// The children of `parent_1` and `parent_2` cut at `cut`.
    pub fn cross_at(parent_1: &Individual, parent_2: &Individual, cut: usize) -> (children: (
        Individual,
        Individual,
    ))
        requires
            parent_1@ is Binary,
            parent_2@ is Binary,
        ensures
            (children.0@, children.1@) == one_point_children(
                parent_1@.bits(),
                parent_2@.bits(),
                cut as int,
            ),
    {
        match (parent_1, parent_2) {
            (Individual::Binary(genes_1), Individual::Binary(genes_2)) => {
                let end = if genes_1.len() <= genes_2.len() {
                    genes_1.len()
                } else {
                    genes_2.len()
                };
                let (child_1, child_2) = exchange_range(genes_1, genes_2, cut, end);
                (Individual::Binary(child_1), Individual::Binary(child_2))
            },
            _ => unreached(),
        }
    }
}

impl Crossover for OnePointCrossover {
    open spec fn accepts(parent_1: Genotype, parent_2: Genotype) -> bool {
        binary_pair(parent_1, parent_2)
    }

    /// The children are those of a cut at some slot of the first parent.
    open spec fn yields(
        parent_1: Genotype,
        parent_2: Genotype,
        children: (Genotype, Genotype),
    ) -> bool {
        exists|cut: int|
            0 <= cut < parent_1.dim() && children == #[trigger] one_point_children(
                parent_1.bits(),
                parent_2.bits(),
                cut,
            )
    }

    fn crossover(parent_1: &Individual, parent_2: &Individual, rng: &mut RandomSource) -> (children:
        (Individual, Individual)) {
        let cut = rng.below(parent_1.dim());
        let children = OnePointCrossover::cross_at(parent_1, parent_2, cut);
        assert((children.0@, children.1@) == one_point_children(
            parent_1@.bits(),
            parent_2@.bits(),
            cut as int,
        ));
        children
    }
}

impl TwoPointsCrossover {
    /// The children of `parent_1` and `parent_2` cut at `cut_1` and `cut_2`.
    pub fn cross_at(parent_1: &Individual, parent_2: &Individual, cut_1: usize, cut_2: usize) -> (children:
        (Individual, Individual))
        requires
            parent_1@ is Binary,
            parent_2@ is Binary,
        ensures
            (children.0@, children.1@) == two_points_children(
                parent_1@.bits(),
                parent_2@.bits(),
                cut_1 as int,
                cut_2 as int,
            ),
    {
        match (parent_1, parent_2) {
            (Individual::Binary(genes_1), Individual::Binary(genes_2)) => {
                let (child_1, child_2) = exchange_range(genes_1, genes_2, cut_1, cut_2);
                (Individual::Binary(child_1), Individual::Binary(child_2))
            },
            _ => unreached(),
        }
    }
}

impl Crossover for TwoPointsCrossover {
    open spec fn accepts(parent_1: Genotype, parent_2: Genotype) -> bool {
        binary_pair(parent_1, parent_2)
    }

    /// The children are those of some draw of two cuts.
    open spec fn yields(
        parent_1: Genotype,
        parent_2: Genotype,
        children: (Genotype, Genotype),
    ) -> bool {
        cut_twice(
            parent_1,
            parent_2,
            |cut_1: int, cut_2: int|
                two_points_children(parent_1.bits(), parent_2.bits(), cut_1, cut_2),
            children,
        )
    }

    fn crossover(parent_1: &Individual, parent_2: &Individual, rng: &mut RandomSource) -> (children:
        (Individual, Individual)) {
        let dim = parent_1.dim();
        let cut_1 = rng.below(dim);
        let ghost offspring = |cut_1: int, cut_2: int|
            two_points_children(parent_1@.bits(), parent_2@.bits(), cut_1, cut_2);
        if cut_1 >= dim - 1 {
            let children = (parent_1.clone(), parent_2.clone());
            assert(cut_twice(parent_1@, parent_2@, offspring, (children.0@, children.1@))) by {
                assert(0 <= cut_1 < parent_1@.dim() && cut_1 >= parent_1@.dim() - 1 && (
                    children.0@,
                    children.1@,
                ) == (parent_1@, parent_2@));
                let _ = offspring(cut_1 as int, 0);
            }
            return children;
        }
        let cut_2 = rng.between(cut_1 + 1, dim);
        let children = TwoPointsCrossover::cross_at(parent_1, parent_2, cut_1, cut_2);
        assert(cut_twice(parent_1@, parent_2@, offspring, (children.0@, children.1@))) by {
            assert((children.0@, children.1@) == offspring(cut_1 as int, cut_2 as int));
        }
        children
    }
}

impl UniformCrossover {
    /// The children of which the first keeps the slots marked in `keep` and
    /// takes the others from `parent_2`, and the second does the reverse.
    pub fn cross_by(parent_1: &Individual, parent_2: &Individual, keep: &Vec<bool>) -> (children: (
        Individual,
        Individual,
    ))
        requires
            parent_1@ is Binary,
            parent_2@ is Binary,
            keep.len() >= common_len(parent_1@.bits(), parent_2@.bits()),
        ensures
            children.0@ == Genotype::Binary(
                chosen(parent_1@.bits(), parent_2@.bits(), keep@),
            ),
            children.1@ == Genotype::Binary(
                chosen(parent_2@.bits(), parent_1@.bits(), keep@),
            ),
    {
        match (parent_1, parent_2) {
            (Individual::Binary(genes_1), Individual::Binary(genes_2)) => {
                let (child_1, child_2) = exchange_unmarked(genes_1, genes_2, keep);
                (Individual::Binary(child_1), Individual::Binary(child_2))
            },
            _ => unreached(),
        }
    }
}

impl Crossover for UniformCrossover {
    open spec fn accepts(parent_1: Genotype, parent_2: Genotype) -> bool {
        parent_1 is Binary && parent_2 is Binary
    }

    /// At each slot the two children hold the two parents' genes, one each.
    open spec fn yields(
        parent_1: Genotype,
        parent_2: Genotype,
        children: (Genotype, Genotype),
    ) -> bool {
        &&& children.0 is Binary
        &&& children.1 is Binary
        &&& complementary(
            children.0.bits(),
            children.1.bits(),
            parent_1.bits(),
            parent_2.bits(),
        )
    }

    fn crossover(parent_1: &Individual, parent_2: &Individual, rng: &mut RandomSource) -> (children:
        (Individual, Individual)) {
        let dim_1 = parent_1.dim();
        let dim_2 = parent_2.dim();
        let shared = if dim_1 <= dim_2 {
            dim_1
        } else {
            dim_2
        };
        let keep = draw_flags(rng, shared, Rate::half());
        proof {
            lemma_chosen_from_parents(parent_1@.bits(), parent_2@.bits(), keep@);
        }
        UniformCrossover::cross_by(parent_1, parent_2, &keep)
    }
}

impl Crossover for CycleCrossover {
    open spec fn accepts(parent_1: Genotype, parent_2: Genotype) -> bool {
        permuted_pair(parent_1, parent_2)
    }

    /// The children are those of the cycle through slot 0: nothing is drawn.
    open spec fn yields(
        parent_1: Genotype,
        parent_2: Genotype,
        children: (Genotype, Genotype),
    ) -> bool {
        &&& children == cycle_offspring(parent_1.order(), parent_2.order())
        &&& children.0.fits(parent_1.kind(), parent_1.dim())
        &&& children.1.fits(parent_1.kind(), parent_1.dim())
    }

    fn crossover(parent_1: &Individual, parent_2: &Individual, rng: &mut RandomSource) -> (children:
        (Individual, Individual)) {
        match (parent_1, parent_2) {
            (Individual::Permuted(genes_1), Individual::Permuted(genes_2)) => {
                let (child_1, child_2) = cycle_crossover(genes_1, genes_2);
                (Individual::Permuted(child_1), Individual::Permuted(child_2))
            },
            _ => unreached(),
        }
    }
}

impl PartiallyMappedCrossover {
    /// The children of `parent_1` and `parent_2` cut at `cut_1` and `cut_2`.
    pub fn cross_at(parent_1: &Individual, parent_2: &Individual, cut_1: usize, cut_2: usize) -> (children:
        (Individual, Individual))
        requires
            permuted_pair(parent_1@, parent_2@),
            cut_1 <= cut_2 <= parent_1@.dim(),
        ensures
            (children.0@, children.1@) == partially_mapped_offspring(
                parent_1@.order(),
                parent_2@.order(),
                cut_1 as int,
                cut_2 as int,
            ),
            children.0@.fits(parent_1@.kind(), parent_1@.dim()),
            children.1@.fits(parent_1@.kind(), parent_1@.dim()),
    {
        match (parent_1, parent_2) {
            (Individual::Permuted(genes_1), Individual::Permuted(genes_2)) => {
                let (child_1, child_2) = partially_mapped_crossover(genes_1, genes_2, cut_1, cut_2);
                (Individual::Permuted(child_1), Individual::Permuted(child_2))
            },
            _ => unreached(),
        }
    }
}

impl Crossover for PartiallyMappedCrossover {
    open spec fn accepts(parent_1: Genotype, parent_2: Genotype) -> bool {
        permuted_pair(parent_1, parent_2)
    }

    /// The children are those of some draw of two cuts, and permutations.
    open spec fn yields(
        parent_1: Genotype,
        parent_2: Genotype,
        children: (Genotype, Genotype),
    ) -> bool {
        &&& cut_twice(
            parent_1,
            parent_2,
            |cut_1: int, cut_2: int|
                partially_mapped_offspring(parent_1.order(), parent_2.order(), cut_1, cut_2),
            children,
        )
        &&& children.0.fits(parent_1.kind(), parent_1.dim())
        &&& children.1.fits(parent_1.kind(), parent_1.dim())
    }

    fn crossover(parent_1: &Individual, parent_2: &Individual, rng: &mut RandomSource) -> (children:
        (Individual, Individual)) {
        let dim = parent_1.dim();
        let cut_1 = rng.below(dim);
        let ghost offspring = |cut_1: int, cut_2: int|
            partially_mapped_offspring(parent_1@.order(), parent_2@.order(), cut_1, cut_2);
        if cut_1 >= dim - 1 {
            let children = (parent_1.clone(), parent_2.clone());
            assert(cut_twice(parent_1@, parent_2@, offspring, (children.0@, children.1@))) by {
                assert(0 <= cut_1 < parent_1@.dim() && cut_1 >= parent_1@.dim() - 1 && (
                    children.0@,
                    children.1@,
                ) == (parent_1@, parent_2@));
                let _ = offspring(cut_1 as int, 0);
            }
            return children;
        }
        let cut_2 = rng.between(cut_1 + 1, dim);
        let children = PartiallyMappedCrossover::cross_at(parent_1, parent_2, cut_1, cut_2);
        assert(cut_twice(parent_1@, parent_2@, offspring, (children.0@, children.1@))) by {
            assert((children.0@, children.1@) == offspring(cut_1 as int, cut_2 as int));
        }
        children
    }
}

} // verus!
