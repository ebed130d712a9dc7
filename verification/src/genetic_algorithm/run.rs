//! A whole run: the engine taken through its phases until the run is over,
//! with the evaluation, the scaling and the roulette wheel handed in as
//! functions.
use vstd::pervasive::unreached;
use vstd::prelude::*;

use crate::genetic_algorithm::breeding::pair_crossed;
use crate::genetic_algorithm::extremes::{first_best, is_first_best, lemma_first_best_unique};
use crate::genetic_algorithm::selection::{
    check_record, check_roulette_pool, is_record, is_roulette_pool,
};
use crate::genetic_algorithm::{
    best_kept, best_not_worse, flat, lemma_best_kept_tops, stepped, Action, EngineState, Event,
    Phase, GA,
};
use crate::genotype::Genotype;
use crate::loader_config::SelectionMethod;
use crate::population::Individual;
use crate::random::RandomSource;

verus! {

/// The place of a phase in the order of the phases.
pub open spec fn phase_number(phase: Phase) -> nat {
    match phase {
        Phase::Init => 0,
        Phase::Evaluate => 1,
        Phase::TrackBest => 2,
        Phase::MaybeRestart => 3,
        Phase::Scale => 4,
        Phase::Select => 5,
        Phase::Recombine => 6,
        Phase::Mutate => 7,
        Phase::Blend => 8,
        Phase::Done => 9,
    }
}

/// What is left of a run: the generations to come, the phases to come in
/// the generation at work, and the restart that may still be made in it.
pub open spec fn left(state: EngineState) -> (int, int, int) {
    (
        state.config.qtd_gen - state.generation,
        9 - phase_number(state.phase),
        if state.restarted {
            0
        } else {
            1
        },
    )
}

/// `later` has less left than `earlier`.
pub open spec fn less_left(later: EngineState, earlier: EngineState) -> bool {
    let (generations, phases, restarts) = left(earlier);
    let (generations_after, phases_after, restarts_after) = left(later);
    &&& 0 <= generations_after && 0 <= phases_after && 0 <= restarts_after
    &&& generations_after < generations || (generations_after == generations && (phases_after
        < phases || (phases_after == phases && restarts_after < restarts)))
}

/// The action is what the engine asks for in the state: it names the event
/// that the phase at hand takes.
pub open spec fn awaits(state: EngineState, action: Action) -> bool {
    match action {
        Action::Evaluate => state.phase == Phase::Evaluate || (state.phase == Phase::MaybeRestart
            && state.restarted),
        Action::Scale(record) => state.phase == Phase::Scale && !flat(state.record) && record@
            == state.record,
        Action::Select(record) => state.phase == Phase::Select && state.config.selection_method
            == SelectionMethod::Roulette && record@ == state.record,
        Action::Continue => match state.phase {
            Phase::TrackBest | Phase::Recombine | Phase::Mutate | Phase::Blend => true,
            Phase::MaybeRestart => !state.restarted,
            Phase::Scale => flat(state.record),
            Phase::Select => state.config.selection_method == SelectionMethod::Tournament,
            _ => false,
        },
        Action::Done => state.phase == Phase::Done,
        Action::Rejected => false,
    }
}

/// The event answers the action: it is the kind of event that the action
/// asks for, and what it carries is well formed.
pub open spec fn answers(state: EngineState, action: Action, event: Event) -> bool {
    let pop_size = state.config.pop_config.pop_size as nat;
    match (action, event) {
        (Action::Evaluate, Event::Evaluated(record)) => is_record(record@, pop_size),
        (Action::Scale(_), Event::Scaled(scaled)) => is_record(scaled@, pop_size),
        (Action::Select(_), Event::Selected(pool)) => is_roulette_pool(pool@, pop_size),
        (Action::Continue, Event::Continue) => true,
        _ => false,
    }
}

/// A step that is not rejected leaves less of the run, keeps the
/// configuration, and asks for what the new phase takes.
pub proof fn lemma_step_goes_on(
    before: EngineState,
    event: Event,
    after: EngineState,
    action: Action,
)
    requires
        before.wf(),
        after.wf(),
        stepped(before, event, after, action),
        !(action is Rejected),
    ensures
        less_left(after, before),
        after.config == before.config,
        awaits(after, action),
{
}

/// An event that answers what the engine asked for is not rejected.
pub proof fn lemma_answer_is_taken(
    before: EngineState,
    asked: Action,
    event: Event,
    after: EngineState,
    action: Action,
)
    requires
        before.wf(),
        awaits(before, asked),
        answers(before, asked, event),
        stepped(before, event, after, action),
    ensures
        !(action is Rejected),
{
}

/// Why a run stopped before its end.
#[derive(Debug, Copy, Clone, PartialEq, Eq, Structural)]
pub enum RunError {
    /// What came back from the scaling is no fitness record of the
    /// population.
    Scaling,
    /// What came back from the roulette wheel is no mating pool of the
    /// population.
    Selection,
}

/// `evaluate` can give `genotype` the rank `rank`.
pub open spec fn ranked_by<F: Fn(&Individual) -> i64>(
    evaluate: F,
    genotype: Genotype,
    rank: i64,
) -> bool {
    exists|individual: &Individual|
        individual@ == genotype && #[trigger] call_ensures(evaluate, (individual,), rank)
}

/// The record gives each slot a rank that `evaluate` can give the individual
/// in it.
pub open spec fn faithful<F: Fn(&Individual) -> i64>(
    evaluate: F,
    population: Seq<Genotype>,
    record: Seq<(usize, i64)>,
) -> bool {
    forall|i: int|
        0 <= i < record.len() ==> ranked_by(evaluate, population[i], (#[trigger] record[i]).1)
}

/// The best rank is at least a rank that `evaluate` gave `genotype`.
pub open spec fn tops<F: Fn(&Individual) -> i64>(
    evaluate: F,
    genotype: Genotype,
    best: Option<i64>,
) -> bool {
    exists|rank: i64|
        #[trigger] ranked_by(evaluate, genotype, rank) && (best matches Some(value) && value
            >= rank)
}

/// The best on record, if there is one, is an individual with a rank that
/// `evaluate` gave it.
pub open spec fn ranked_as_best<F: Fn(&Individual) -> i64>(evaluate: F, state: EngineState) -> bool {
    state.best_value matches Some(value) ==> (state.best_individual matches Some(individual)
        && ranked_by(evaluate, individual, value))
}

/// The first population of the run has not been ranked yet.
pub open spec fn before_first_ranks(state: EngineState) -> bool {
    state.generation == 0 || (state.generation == 1 && (state.phase == Phase::Evaluate
        || state.phase == Phase::TrackBest))
}

/// What a run keeps true of the ranks. The best on record, if the run
/// started without one, is an individual with a rank that `evaluate` gave
/// it. Until the first population has been ranked it stands as it was; from
/// then on the best rank tops a rank of each of its slots.
pub open spec fn sound<F: Fn(&Individual) -> i64>(
    evaluate: F,
    start: EngineState,
    state: EngineState,
) -> bool {
    &&& start.best_value is None ==> ranked_as_best(evaluate, state)
    &&& state.phase == Phase::TrackBest ==> faithful(evaluate, state.population, state.record)
    &&& if before_first_ranks(state) {
        state.population == start.population
    } else {
        forall|i: int|
            0 <= i < start.population.len() ==> tops(
                evaluate,
                #[trigger] start.population[i],
                state.best_value,
            )
    }
}

/// A best rank that does not go down keeps topping what it topped.
proof fn lemma_tops_on<F: Fn(&Individual) -> i64>(
    evaluate: F,
    genotype: Genotype,
    earlier: Option<i64>,
    later: Option<i64>,
)
    requires
        tops(evaluate, genotype, earlier),
        earlier matches Some(low) ==> (later matches Some(high) && high >= low),
    ensures
        tops(evaluate, genotype, later),
{
    let rank = choose|rank: i64|
        #[trigger] ranked_by(evaluate, genotype, rank) && (earlier matches Some(value) && value
            >= rank);
    assert(ranked_by(evaluate, genotype, rank));
}

/// A run stays sound with every step that is not rejected, if the ranks
/// that it is handed are those that `evaluate` gave the population.
pub proof fn lemma_stays_sound<F: Fn(&Individual) -> i64>(
    evaluate: F,
    start: EngineState,
    before: EngineState,
    event: Event,
    after: EngineState,
    action: Action,
)
    requires
        before.wf(),
        after.wf(),
        sound(evaluate, start, before),
        event matches Event::Evaluated(record) ==> faithful(evaluate, before.population, record@),
        stepped(before, event, after, action),
        !(action is Rejected),
    ensures
        sound(evaluate, start, after),
{
    let pop_size = before.config.pop_config.pop_size as nat;
    let tracking = match (before.phase, event) {
        (Phase::TrackBest, Event::Continue) => Some(before.record),
        (Phase::MaybeRestart, Event::Evaluated(record)) => Some(record@),
        _ => None,
    };
    match tracking {
        Some(record) => {
            assert(record.len() == pop_size && pop_size > 0);
            assert(faithful(evaluate, before.population, record));
            lemma_best_kept_tops(before, record);
            let kept = best_kept(before, record).0;
            assert(after.best_value == kept.best_value);
            assert(after.best_individual == kept.best_individual);
            if start.best_value is None {
                if !(before.best_value is Some && kept.best_value == before.best_value
                    && kept.best_individual == before.best_individual) {
                    let top = crate::genetic_algorithm::extremes::first_best(record);
                    assert(ranked_by(evaluate, before.population[top], record[top].1));
                }
            }
            assert forall|i: int| 0 <= i < start.population.len() implies tops(
                evaluate,
                #[trigger] start.population[i],
                after.best_value,
            ) by {
                if before_first_ranks(before) {
                    assert(before.population == start.population);
                    assert(ranked_by(evaluate, before.population[i], record[i].1));
                    assert(after.best_value.unwrap() >= record[i].1);
                } else {
                    lemma_tops_on(evaluate, start.population[i], before.best_value, after.best_value);
                }
            }
        },
        None => {
            if !before_first_ranks(after) {
                assert forall|i: int| 0 <= i < start.population.len() implies tops(
                    evaluate,
                    #[trigger] start.population[i],
                    after.best_value,
                ) by {
                    assert(!before_first_ranks(before));
                    lemma_tops_on(evaluate, start.population[i], before.best_value, after.best_value);
                }
            }
        },
    }
}

/// A run of one generation, without mutation and without recombination, of
/// a population in which every slot holds `solution`, which `evaluate` can
/// only give the rank `rank`. The search is not configured to restart at
/// once.
pub open spec fn identical_solutions<F: Fn(&Individual) -> i64>(
    start: EngineState,
    evaluate: F,
    solution: Genotype,
    rank: i64,
) -> bool {
    &&& start.initial()
    &&& one_quiet_generation(start)
    &&& all_alike(start.population, solution)
    &&& forall|other: i64| ranked_by(evaluate, solution, other) ==> other == rank
}

/// The configuration asks for one generation, without mutation and without
/// recombination, and for no restart at once.
pub open spec fn one_quiet_generation(state: EngineState) -> bool {
    &&& state.config.qtd_gen == 1
    &&& state.config.mutation_chance@ == 0
    &&& state.config.crossover_chance@ == 0
    &&& state.config.generations_to_genocide >= 1
}

/// Every slot holds `solution`.
pub open spec fn all_alike(genotypes: Seq<Genotype>, solution: Genotype) -> bool {
    forall|i: int| 0 <= i < genotypes.len() ==> #[trigger] genotypes[i] == solution
}

/// Every slot has the rank `rank`.
pub open spec fn all_ranked(record: Seq<(usize, i64)>, rank: i64) -> bool {
    forall|i: int| 0 <= i < record.len() ==> (#[trigger] record[i]).1 == rank
}

/// Where a run of identical solutions stands after its start: the
/// population still holds the solution in every slot, and from the tracking
/// of the best on, the solution is the best on record, with its rank.
pub open spec fn on_course(state: EngineState, solution: Genotype, rank: i64) -> bool {
    &&& state.phase != Phase::Init
    &&& all_alike(state.population, solution)
    &&& match state.phase {
        Phase::Init | Phase::Evaluate => state.best_value is None,
        Phase::TrackBest => state.best_value is None && all_ranked(state.record, rank),
        _ => {
            &&& state.best_value == Some(rank)
            &&& state.best_individual == Some(solution)
            &&& state.stagnation == 0
            &&& !state.restarted
        },
    }
    &&& state.phase == Phase::MaybeRestart || state.phase == Phase::Scale ==> all_ranked(
        state.record,
        rank,
    )
    &&& state.phase == Phase::Mutate || state.phase == Phase::Blend ==> all_alike(
        state.offspring,
        solution,
    )
}

/// A run of identical solutions stays on course with every step that is
/// not rejected, if the ranks that it is handed are those of the solution.
pub proof fn lemma_stays_on_course(
    before: EngineState,
    event: Event,
    after: EngineState,
    action: Action,
    solution: Genotype,
    rank: i64,
)
    requires
        before.wf(),
        after.wf(),
        one_quiet_generation(before),
        on_course(before, solution, rank),
        event matches Event::Evaluated(record) ==> all_ranked(record@, rank),
        stepped(before, event, after, action),
        !(action is Rejected),
    ensures
        on_course(after, solution, rank),
{
    let pop_size = before.config.pop_config.pop_size as nat;
    match before.phase {
        Phase::TrackBest => {
            let record = before.record;
            assert(record.len() == pop_size && pop_size > 0);
            assert(record[0].1 == rank);
            assert forall|j: int| 0 <= j < record.len() implies (#[trigger] record[j]).1
                <= record[0].1 by {}
            assert(is_first_best(record, 0));
            lemma_first_best_unique(record, 0);
            assert(first_best(record) == 0);
            assert(before.population[0] == solution);
            let kept = best_kept(before, record).0;
            assert(kept.best_value == Some(rank));
            assert(kept.best_individual == Some(solution));
        },
        Phase::Recombine => {
            assert forall|i: int| 0 <= i < after.offspring.len() implies #[trigger] after.offspring[i]
                == solution by {
                let k = i / 2;
                assert(before.pool[k].0 < pop_size);
                assert(pair_crossed(
                    before.config.crossover_method,
                    before.config.crossover_chance@,
                    before.population[before.pool[k].0 as int],
                    before.population[before.pool[k].1 as int],
                    (after.offspring[2 * k], after.offspring[2 * k + 1]),
                ));
            }
        },
        Phase::Mutate => {
            assert forall|i: int| 0 <= i < after.offspring.len() implies #[trigger] after.offspring[i]
                == solution by {
                assert(before.offspring[i] == solution);
            }
        },
        Phase::Blend => {
            assert forall|i: int| 0 <= i < after.population.len() implies #[trigger] after.population[i]
                == solution by {
                assert(before.offspring[i] == solution);
                assert(before.population[i] == solution);
            }
        },
        _ => {},
    }
}

impl GA {
    /// The fitness record of the population: for each slot, the rank that
    /// `evaluate` gives its individual.
    pub fn evaluate<F: Fn(&Individual) -> i64>(&self, evaluate: &F) -> (record: Vec<(usize, i64)>)
        requires
            self@.wf(),
            forall|individual: &Individual|
                individual@.fits(
                    self@.config.pop_config.pop_type,
                    self@.config.pop_config.dim as nat,
                ) ==> call_requires(*evaluate, (individual,)),
        ensures
            is_record(record@, self@.config.pop_config.pop_size as nat),
            forall|i: int|
                0 <= i < record.len() ==> ranked_by(
                    *evaluate,
                    self@.population[i],
                    (#[trigger] record[i]).1,
                ),
    {
        let population = self.population();
        let n = population.individuals.len();
        let mut record: Vec<(usize, i64)> = Vec::with_capacity(n);
        let mut i: usize = 0;
        while i < n
            invariant
                i <= n,
                n == population.individuals.len(),
                population@ == self@.population,
                self@.wf(),
                forall|individual: &Individual|
                    individual@.fits(
                        self@.config.pop_config.pop_type,
                        self@.config.pop_config.dim as nat,
                    ) ==> call_requires(*evaluate, (individual,)),
                record.len() == i,
                forall|k: int| 0 <= k < i ==> (#[trigger] record[k]).0 == k,
                forall|k: int|
                    0 <= k < i ==> ranked_by(
                        *evaluate,
                        self@.population[k],
                        (#[trigger] record[k]).1,
                    ),
            decreases n - i,
        {
            let individual = &population.individuals[i];
            assert(individual@ == self@.population[i as int]);
            let rank = evaluate(individual);
            assert(ranked_by(*evaluate, self@.population[i as int], rank));
            record.push((i, rank));
            i = i + 1;
        }
        record
    }

    /// A whole run: the engine goes through the phases of every generation.
    /// `evaluate` ranks an individual, `scale` scales a fitness record for
    /// selection in the generation and for the number of generations that it
    /// is told, and `select` samples a mating pool from the roulette wheel.
    /// Once in each generation, when the best has been tracked, `report` is
    /// told the generation, the best rank on record and the fitness record.
    /// The run ends with the best individual found and its rank, or stops
    /// where the scaling or the wheel hands back what the engine cannot
    /// take.
    pub fn run<F, S, R, O>(
        &mut self,
        evaluate: F,
        scale: S,
        select: R,
        report: O,
        rng: &mut RandomSource,
    ) -> (outcome: Result<(Option<Individual>, Option<i64>), RunError>) where
        F: Fn(&Individual) -> i64,
        S: Fn(&Vec<(usize, i64)>, usize, usize) -> Vec<(usize, i64)>,
        R: Fn(&Vec<(usize, i64)>) -> Vec<(usize, usize)>,
        O: Fn(usize, Option<i64>, &Vec<(usize, i64)>),

        requires
            old(self)@.wf(),
            old(self)@.phase == Phase::Init,
            forall|individual: &Individual|
                individual@.fits(
                    old(self)@.config.pop_config.pop_type,
                    old(self)@.config.pop_config.dim as nat,
                ) ==> call_requires(evaluate, (individual,)),
            forall|record: &Vec<(usize, i64)>, generation: usize, total: usize|
                call_requires(scale, (record, generation, total)),
            forall|record: &Vec<(usize, i64)>| call_requires(select, (record,)),
            forall|generation: usize, best: Option<i64>, record: &Vec<(usize, i64)>|
                call_requires(report, (generation, best, record)),
        ensures
            final(self)@.wf(),
            final(self)@.config == old(self)@.config,
            best_not_worse(old(self)@, final(self)@),
            match outcome {
                Ok(best) => {
                    &&& final(self)@.phase == Phase::Done
                    &&& final(self)@.generation == old(self)@.config.qtd_gen
                    &&& old(self)@.config.qtd_gen >= 1 ==> best.1 is Some
                    &&& best.1 == final(self)@.best_value
                    &&& best.0 is Some <==> final(self)@.best_individual is Some
                    &&& best.0 matches Some(individual) ==> Some(individual@)
                        == final(self)@.best_individual
                },
                Err(RunError::Scaling) => final(self)@.phase == Phase::Scale,
                Err(RunError::Selection) => final(self)@.phase == Phase::Select,
            },
            old(self)@.config.selection_method == SelectionMethod::Tournament ==> !(outcome
                matches Err(RunError::Selection)),
            (forall|record: &Vec<(usize, i64)>, generation: usize, total: usize, scaled: Vec<
                (usize, i64),
            >| #[trigger]
                call_ensures(scale, (record, generation, total), scaled) ==> is_record(
                    scaled@,
                    record@.len(),
                )) ==> !(outcome matches Err(RunError::Scaling)),
            (forall|record: &Vec<(usize, i64)>, pool: Vec<(usize, usize)>| #[trigger]
                call_ensures(select, (record,), pool) ==> is_roulette_pool(pool@, record@.len()))
                ==> !(outcome matches Err(RunError::Selection)),
            outcome is Ok && old(self)@.best_value is None ==> ranked_as_best(
                evaluate,
                final(self)@,
            ),
            outcome is Ok && old(self)@.config.qtd_gen >= 1 ==> forall|i: int|
                0 <= i < old(self)@.population.len() ==> tops(
                    evaluate,
                    #[trigger] old(self)@.population[i],
                    final(self)@.best_value,
                ),
            forall|solution: Genotype, rank: i64| #[trigger]
                identical_solutions(old(self)@, evaluate, solution, rank) ==> match outcome {
                    Ok(best) => best.1 == Some(rank) && (best.0 matches Some(individual)
                        && individual@ == solution),
                    Err(error) => error == RunError::Selection,
                },
    {
        let pop_size = self.config().pop_config.pop_size;
        let total = self.config().qtd_gen;
        let ghost start = self@;
        let mut action = self.step(Event::Start, rng);
        proof {
            lemma_step_goes_on(start, Event::Start, self@, action);
        }
        assert forall|solution: Genotype, rank: i64| #[trigger]
            identical_solutions(start, evaluate, solution, rank) implies on_course(
            self@,
            solution,
            rank,
        ) by {}
        assert(sound(evaluate, start, self@));
        loop
            invariant
                start == old(self)@,
                self@.wf(),
                self@.config == start.config,
                pop_size == start.config.pop_config.pop_size,
                total == start.config.qtd_gen,
                awaits(self@, action),
                best_not_worse(start, self@),
                sound(evaluate, start, self@),
                forall|solution: Genotype, rank: i64| #[trigger]
                    identical_solutions(start, evaluate, solution, rank) ==> on_course(
                        self@,
                        solution,
                        rank,
                    ),
                forall|individual: &Individual|
                    individual@.fits(
                        start.config.pop_config.pop_type,
                        start.config.pop_config.dim as nat,
                    ) ==> call_requires(evaluate, (individual,)),
                forall|record: &Vec<(usize, i64)>, generation: usize, total: usize|
                    call_requires(scale, (record, generation, total)),
                forall|record: &Vec<(usize, i64)>| call_requires(select, (record,)),
                forall|generation: usize, best: Option<i64>, record: &Vec<(usize, i64)>|
                    call_requires(report, (generation, best, record)),
            decreases left(self@).0, left(self@).1, left(self@).2,
        {
            let ghost asked = action;
            let ghost before = self@;
            let event = match action {
                Action::Evaluate => Event::Evaluated(self.evaluate(&evaluate)),
                Action::Scale(record) => {
                    let scaled = scale(&record, self.generation(), total);
                    if !check_record(&scaled, pop_size) {
                        return Err(RunError::Scaling);
                    }
                    Event::Scaled(scaled)
                },
                Action::Select(record) => {
                    let pool = select(&record);
                    if !check_roulette_pool(&pool, pop_size) {
                        return Err(RunError::Selection);
                    }
                    Event::Selected(pool)
                },
                Action::Continue => Event::Continue,
                Action::Done => {
                    let best = self.best();
                    proof {
                        if start.config.qtd_gen >= 1 {
                            assert(!before_first_ranks(self@));
                        }
                    }
                    return Ok(best);
                },
                Action::Rejected => unreached(),
            };
            let ghost handed = event;
            let entered = self.phase();
            action = self.step(event, rng);
            if self.phase() == Phase::Scale && entered != Phase::Scale {
                report(self.generation(), self.best().1, self.record());
            }
            proof {
                lemma_answer_is_taken(before, asked, handed, self@, action);
                lemma_step_goes_on(before, handed, self@, action);
                lemma_stays_sound(evaluate, start, before, handed, self@, action);
                assert forall|solution: Genotype, rank: i64| #[trigger]
                    identical_solutions(start, evaluate, solution, rank) implies on_course(
                    self@,
                    solution,
                    rank,
                ) by {
                    if let Event::Evaluated(record) = handed {
                        assert forall|i: int| 0 <= i < record@.len() implies (
                        #[trigger] record@[i]).1 == rank by {
                            assert(before.population[i] == solution);
                            assert(ranked_by(evaluate, before.population[i], record@[i].1));
                        }
                    }
                    lemma_stays_on_course(before, handed, self@, action, solution, rank);
                }
            }
        }
    }
}

} // verus!
