//! Satisfiability of clauses of three literals: a candidate assigns a truth
//! value to each variable, and its objective is the number of clauses that
//! hold.
use vstd::pervasive::unreached;
use vstd::prelude::*;

use crate::genetic_algorithm::run::{
    all_alike, identical_solutions, one_quiet_generation, ranked_by, tops, RunError,
};
use crate::genetic_algorithm::selection::{is_record, is_roulette_pool};
use crate::genetic_algorithm::{best_not_worse, EngineState, Phase, GA};
use crate::genotype::Genotype;
use crate::loader_config::{Config, PopType, SelectionMethod};
use crate::population::Individual;
use crate::random::RandomSource;
use crate::problem_factory::instance_text::{clauses_from, read_clauses};

verus! {

/// The variable that a literal speaks of. Literals count variables from 1
/// and negate by their sign, so the literals `n` and `-n` speak of variable
/// `n - 1`. The literal 0 speaks of no variable that an assignment could
/// hold: it stands for the highest number there is.
pub open spec fn variable_of(literal: i32) -> u32 {
    if literal > 0 {
        (literal - 1) as u32
    } else if literal < 0 {
        (-(literal + 1)) as u32
    } else {
        u32::MAX
    }
}

/// The literal of `variable` holds under `solution`: the variable is true
/// and the literal plain, or the variable is false and the literal negated.
pub open spec fn literal_holds(solution: Seq<bool>, variable: u32, negated: bool) -> bool {
    solution[variable as int] != negated
}

/// One of the three literals of the clause holds.
pub open spec fn clause_holds(
    solution: Seq<bool>,
    clause_id: (u32, u32, u32),
    clause_neg: (bool, bool, bool),
) -> bool {
    ||| literal_holds(solution, clause_id.0, clause_neg.0)
    ||| literal_holds(solution, clause_id.1, clause_neg.1)
    ||| literal_holds(solution, clause_id.2, clause_neg.2)
}

/// The number of clauses among the first `upto` that hold under `solution`.
pub open spec fn satisfied(
    clause_id: Seq<(u32, u32, u32)>,
    clause_neg: Seq<(bool, bool, bool)>,
    solution: Seq<bool>,
    upto: nat,
) -> nat
    decreases upto,
{
    if upto == 0 {
        0
    } else {
        satisfied(clause_id, clause_neg, solution, (upto - 1) as nat) + if clause_holds(
            solution,
            clause_id[upto - 1],
            clause_neg[upto - 1],
        ) {
            1nat
        } else {
            0nat
        }
    }
}

/// Every variable of every clause is one of the first `dim`.
pub open spec fn within(clause_id: Seq<(u32, u32, u32)>, dim: nat) -> bool {
    forall|i: int|
        0 <= i < clause_id.len() ==> (#[trigger] clause_id[i]).0 < dim && clause_id[i].1 < dim
            && clause_id[i].2 < dim
}

/// The variable that a literal speaks of.
fn variable(literal: i32) -> (variable: u32)
    ensures
        variable == variable_of(literal),
{
    if literal > 0 {
        (literal - 1) as u32
    } else if literal < 0 {
        (-(literal + 1)) as u32
    } else {
        u32::MAX
    }
}

/// A satisfiability instance.
pub struct SAT3 {
    config: Config,
    clause_id: Vec<(u32, u32, u32)>,
    clause_neg: Vec<(bool, bool, bool)>,
}

impl SAT3 {
    #[verifier::type_invariant]
    spec fn paired(self) -> bool {
        self.clause_id.len() == self.clause_neg.len()
    }

    /// The variables of the clauses.
    pub closed spec fn ids(&self) -> Seq<(u32, u32, u32)> {
        self.clause_id@
    }

    /// For each literal of the clauses, whether it is negated.
    pub closed spec fn negations(&self) -> Seq<(bool, bool, bool)> {
        self.clause_neg@
    }

    /// The configuration that the instance was made with.
    pub closed spec fn configuration(&self) -> Config {
        self.config
    }

    /// The instance made of clauses of signed literals.
    pub fn new(problem: &Vec<(i32, i32, i32)>, config: Config) -> (instance: SAT3)
        ensures
            instance.configuration() == config,
            instance.ids().len() == problem.len(),
            instance.negations().len() == problem.len(),
            forall|i: int|
                0 <= i < problem.len() ==> #[trigger] instance.ids()[i] == (
                    variable_of(problem[i].0),
                    variable_of(problem[i].1),
                    variable_of(problem[i].2),
                ),
            forall|i: int|
                0 <= i < problem.len() ==> #[trigger] instance.negations()[i] == (
                    problem[i].0 < 0,
                    problem[i].1 < 0,
                    problem[i].2 < 0,
                ),
    {
        let (clause_id, clause_neg) = SAT3::clauses(problem);
        SAT3 { config, clause_id, clause_neg }
    }

    /// Splits clauses of signed literals into their variables and their
    /// signs.
    pub fn clauses(problem: &Vec<(i32, i32, i32)>) -> (split: (
        Vec<(u32, u32, u32)>,
        Vec<(bool, bool, bool)>,
    ))
        ensures
            split.0.len() == problem.len(),
            split.1.len() == problem.len(),
            forall|i: int|
                0 <= i < problem.len() ==> #[trigger] split.0[i] == (
                    variable_of(problem[i].0),
                    variable_of(problem[i].1),
                    variable_of(problem[i].2),
                ),
            forall|i: int|
                0 <= i < problem.len() ==> #[trigger] split.1[i] == (
                    problem[i].0 < 0,
                    problem[i].1 < 0,
                    problem[i].2 < 0,
                ),
    {
        let mut clause_id: Vec<(u32, u32, u32)> = Vec::with_capacity(problem.len());
        let mut clause_neg: Vec<(bool, bool, bool)> = Vec::with_capacity(problem.len());
        let mut i: usize = 0;
        while i < problem.len()
            invariant
                i <= problem.len(),
                clause_id.len() == i,
                clause_neg.len() == i,
                forall|k: int|
                    0 <= k < i ==> #[trigger] clause_id[k] == (
                        variable_of(problem[k].0),
                        variable_of(problem[k].1),
                        variable_of(problem[k].2),
                    ),
                forall|k: int|
                    0 <= k < i ==> #[trigger] clause_neg[k] == (
                        problem[k].0 < 0,
                        problem[k].1 < 0,
                        problem[k].2 < 0,
                    ),
            decreases problem.len() - i,
        {
            let (a, b, c) = problem[i];
            clause_id.push((variable(a), variable(b), variable(c)));
            clause_neg.push((a < 0, b < 0, c < 0));
            i = i + 1;
        }
        (clause_id, clause_neg)
    }

    /// Tells whether a clause holds under `solution`.
    pub fn eval_solution(
        solution: &Vec<bool>,
        clause_id: &(u32, u32, u32),
        clause_neg: (bool, bool, bool),
    ) -> (holds: bool)
        requires
            clause_id.0 < solution.len(),
            clause_id.1 < solution.len(),
            clause_id.2 < solution.len(),
        ensures
            holds == clause_holds(solution@, *clause_id, clause_neg),
    {
        let (a, b, c) = *clause_id;
        let (na, nb, nc) = clause_neg;
        let solution_a = solution[a as usize];
        let solution_b = solution[b as usize];
        let solution_c = solution[c as usize];
        let checked_solution_a = (!solution_a && na) || (solution_a && !na);
        let checked_solution_b = (!solution_b && nb) || (solution_b && !nb);
        let checked_solution_c = (!solution_c && nc) || (solution_c && !nc);
        checked_solution_a || checked_solution_b || checked_solution_c
    }

    /// Tells whether an assignment to `dim` variables gives a value to every
    /// variable of the instance.
    pub fn covered_by(&self, dim: usize) -> (ok: bool)
        ensures
            ok == within(self.ids(), dim as nat),
    {
        let mut i: usize = 0;
        while i < self.clause_id.len()
            invariant
                i <= self.clause_id.len(),
                forall|k: int|
                    0 <= k < i ==> (#[trigger] self.clause_id[k]).0 < dim && self.clause_id[k].1
                        < dim && self.clause_id[k].2 < dim,
            decreases self.clause_id.len() - i,
        {
            let (a, b, c) = self.clause_id[i];
            if a as usize >= dim || b as usize >= dim || c as usize >= dim {
                return false;
            }
            i = i + 1;
        }
        true
    }

    /// The number of clauses.
    pub fn clause_count(&self) -> (count: usize)
        ensures
            count == self.ids().len(),
            count == self.negations().len(),
    {
        proof {
            use_type_invariant(self);
        }
        self.clause_id.len()
    }

    /// The truth values that an individual assigns: its bits.
    pub fn decode(&self, individual: &Individual) -> (solution: Vec<bool>)
        requires
            individual@ is Binary,
        ensures
            solution@ == individual@.bits(),
    {
        match individual {
            Individual::Binary(value) => {
                let solution = value.clone();
                assert(solution@ =~= value@);
                solution
            },
            Individual::Permuted(_) => unreached(),
        }
    }

    /// The number of clauses that hold under `solution`.
    pub fn objective(&self, solution: &Vec<bool>) -> (count: usize)
        requires
            within(self.ids(), solution.len() as nat),
        ensures
            count == satisfied(self.ids(), self.negations(), solution@, self.ids().len()),
            count <= self.ids().len(),
    {
        proof {
            use_type_invariant(self);
        }
        let mut count: usize = 0;
        let mut i: usize = 0;
        while i < self.clause_id.len()
            invariant
                i <= self.clause_id.len(),
                self.clause_id.len() == self.clause_neg.len(),
                within(self.clause_id@, solution.len() as nat),
                count == satisfied(self.clause_id@, self.clause_neg@, solution@, i as nat),
                count <= i,
            decreases self.clause_id.len() - i,
        {
            assert(self.clause_id@[i as int].0 < solution.len());
            if SAT3::eval_solution(solution, &self.clause_id[i], self.clause_neg[i]) {
                count = count + 1;
            }
            i = i + 1;
        }
        count
    }

    /// The objective as the search sees it: that of [`SAT3::objective`].
    pub fn normed_objective(&self, solution: &Vec<bool>) -> (count: usize)
        requires
            within(self.ids(), solution.len() as nat),
        ensures
            count == satisfied(self.ids(), self.negations(), solution@, self.ids().len()),
    {
        self.objective(solution)
    }

    /// The fitness of an individual: the number of clauses that hold under
    /// the truth values it assigns. No assignment violates a constraint.
    pub fn fitness(&self, individual: &Individual) -> (count: usize)
        requires
            individual@ is Binary,
            within(self.ids(), individual@.dim()),
        ensures
            count == satisfied(
                self.ids(),
                self.negations(),
                individual@.bits(),
                self.ids().len(),
            ),
    {
        let decoded_individual = self.decode(individual);
        self.normed_objective(&decoded_individual)
    }

    /// The rank that a run gives the truth values `bits`: the number of
    /// clauses that hold under them, as far as 64 bits can count.
    pub open spec fn rank_of(&self, bits: Seq<bool>) -> i64 {
        let count = satisfied(self.ids(), self.negations(), bits, self.ids().len());
        if count <= i64::MAX {
            count as i64
        } else {
            i64::MAX
        }
    }

    /// The best on record, if there is one, is a bit vector with the rank
    /// that the instance gives it.
    pub open spec fn ranks_best(&self, state: EngineState) -> bool {
        match (state.best_individual, state.best_value) {
            (Some(Genotype::Binary(bits)), Some(value)) => value == self.rank_of(bits),
            (_, Some(_)) => false,
            _ => true,
        }
    }

    /// The best rank is at least the rank that the instance gives
    /// `genotype`.
    pub open spec fn tops(&self, genotype: Genotype, best: Option<i64>) -> bool {
        match best {
            Some(value) => value >= self.rank_of(genotype.bits()),
            None => false,
        }
    }

    /// The rank of an individual in a run: its fitness.
    pub fn rank(&self, individual: &Individual) -> (rank: i64)
        requires
            individual@ is Binary,
            within(self.ids(), individual@.dim()),
        ensures
            rank == self.rank_of(individual@.bits()),
    {
        let count: u64 = self.fitness(individual) as u64;
        if count <= 0x7fff_ffff_ffff_ffff {
            count as i64
        } else {
            i64::MAX
        }
    }

    /// A whole run of `engine` on the instance: see [`GA::run`]. A run of one
    /// generation, without mutation and without recombination, of a
    /// population that holds the same truth values in every slot reports
    /// them as the best individual, ranked by the number of clauses that
    /// hold under them.
    pub fn run<S, R, O>(
        &self,
        engine: &mut GA,
        scale: S,
        select: R,
        report: O,
        rng: &mut RandomSource,
    ) -> (outcome: Result<(Option<Individual>, Option<i64>), RunError>) where
        S: Fn(&Vec<(usize, i64)>, usize, usize) -> Vec<(usize, i64)>,
        R: Fn(&Vec<(usize, i64)>) -> Vec<(usize, usize)>,
        O: Fn(usize, Option<i64>, &Vec<(usize, i64)>),

        requires
            old(engine)@.wf(),
            old(engine)@.phase == Phase::Init,
            old(engine)@.config.pop_config.pop_type == PopType::Binary,
            within(self.ids(), old(engine)@.config.pop_config.dim as nat),
            forall|record: &Vec<(usize, i64)>, generation: usize, total: usize|
                call_requires(scale, (record, generation, total)),
            forall|record: &Vec<(usize, i64)>| call_requires(select, (record,)),
            forall|generation: usize, best: Option<i64>, record: &Vec<(usize, i64)>|
                call_requires(report, (generation, best, record)),
        ensures
            final(engine)@.wf(),
            final(engine)@.config == old(engine)@.config,
            best_not_worse(old(engine)@, final(engine)@),
            match outcome {
                Ok(best) => {
                    &&& final(engine)@.phase == Phase::Done
                    &&& final(engine)@.generation == old(engine)@.config.qtd_gen
                    &&& old(engine)@.config.qtd_gen >= 1 ==> best.1 is Some
                    &&& best.1 == final(engine)@.best_value
                    &&& best.0 is Some <==> final(engine)@.best_individual is Some
                    &&& best.0 matches Some(individual) ==> Some(individual@)
                        == final(engine)@.best_individual
                },
                Err(RunError::Scaling) => final(engine)@.phase == Phase::Scale,
                Err(RunError::Selection) => final(engine)@.phase == Phase::Select,
            },
            old(engine)@.config.selection_method == SelectionMethod::Tournament ==> !(outcome
                matches Err(RunError::Selection)),
            (forall|record: &Vec<(usize, i64)>, generation: usize, total: usize, scaled: Vec<
                (usize, i64),
            >| #[trigger]
                call_ensures(scale, (record, generation, total), scaled) ==> is_record(
                    scaled@,
                    record@.len(),
                )) ==> !(outcome matches Err(RunError::Scaling)),
            (forall|record: &Vec<(usize, i64)>, pool: Vec<(usize, usize)>| #[trigger]
                call_ensures(select, (record,), pool) ==> is_roulette_pool(pool@, record@.len()))
                ==> !(outcome matches Err(RunError::Selection)),
            outcome is Ok && old(engine)@.best_value is None ==> self.ranks_best(final(engine)@),
            outcome is Ok && old(engine)@.config.qtd_gen >= 1 ==> forall|i: int|
                0 <= i < old(engine)@.population.len() ==> self.tops(
                    #[trigger] old(engine)@.population[i],
                    final(engine)@.best_value,
                ),
            forall|bits: Seq<bool>|
                old(engine)@.initial() && one_quiet_generation(old(engine)@) && #[trigger] all_alike(
                    old(engine)@.population,
                    Genotype::Binary(bits),
                ) ==> match outcome {
                    Ok(best) => best.1 == Some(self.rank_of(bits)) && (best.0 matches Some(
                        individual,
                    ) && individual@ == Genotype::Binary(bits)),
                    Err(error) => error == RunError::Selection,
                },
    {
        let evaluate = |individual: &Individual| -> (rank: i64)
            requires
                individual@ is Binary,
                within(self.ids(), individual@.dim()),
            ensures
                rank == self.rank_of(individual@.bits()),
            { self.rank(individual) };
        let ghost start = engine@;
        let outcome = engine.run(evaluate, scale, select, report, rng);
        proof {
            if outcome is Ok && start.best_value is None && engine@.best_value is Some {
                let best = engine@.best_individual.unwrap();
                let value = engine@.best_value.unwrap();
                assert(ranked_by(evaluate, best, value));
                let individual = choose|individual: &Individual|
                    individual@ == best && call_ensures(evaluate, (individual,), value);
                assert(call_ensures(evaluate, (individual,), value));
                assert(best.fits(PopType::Binary, start.config.pop_config.dim as nat));
            }
            if outcome is Ok && start.config.qtd_gen >= 1 {
                assert forall|i: int| 0 <= i < start.population.len() implies self.tops(
                    #[trigger] start.population[i],
                    engine@.best_value,
                ) by {
                    assert(tops(evaluate, start.population[i], engine@.best_value));
                    let rank = choose|rank: i64|
                        #[trigger] ranked_by(evaluate, start.population[i], rank) && (
                        engine@.best_value matches Some(value) && value >= rank);
                    let individual = choose|individual: &Individual|
                        individual@ == start.population[i] && call_ensures(
                            evaluate,
                            (individual,),
                            rank,
                        );
                    assert(call_ensures(evaluate, (individual,), rank));
                }
            }
            assert forall|bits: Seq<bool>|
                start.initial() && one_quiet_generation(start) && #[trigger] all_alike(
                    start.population,
                    Genotype::Binary(bits),
                ) implies identical_solutions(
                start,
                evaluate,
                Genotype::Binary(bits),
                self.rank_of(bits),
            ) by {
                assert forall|other: i64|
                    ranked_by(evaluate, Genotype::Binary(bits), other) implies other == self.rank_of(bits) by {
                    let individual = choose|individual: &Individual|
                        individual@ == Genotype::Binary(bits) && call_ensures(
                            evaluate,
                            (individual,),
                            other,
                        );
                    assert(call_ensures(evaluate, (individual,), other));
                }
            }
        }
        outcome
    }

    /// The configuration that the instance was made with.
    pub fn get_config(&self) -> (config: &Config)
        ensures
            *config == self.configuration(),
    {
        &self.config
    }
}

/// The clauses that the text of an instance file spells: each line gives
/// one clause, as three signed literals separated by blanks. Nothing is
/// returned where a line does not spell a clause.
pub fn load_instance(text: &[u8]) -> (problem: Option<Vec<(i32, i32, i32)>>)
    ensures
        match clauses_from(text@, 0) {
            Some(clauses) => problem matches Some(found) && found@ == clauses,
            None => problem is None,
        },
{
    read_clauses(text)
}

} // verus!
