//! The evolution engine.
//!
//! The engine owns the population of one run and takes it through the
//! phases of each generation, one phase with each step. Three things it
//! leaves to its driver: the evaluation of the population, which gives each
//! slot a rank, the scaling of a fitness record, and the sampling of the
//! roulette wheel. After each step the engine names what it needs next, and
//! the driver hands it over as the next event. [`GA::run`] is such a driver:
//! it takes the three as functions and the run to its end.
pub mod breeding;
pub mod extremes;
pub mod run;
pub mod selection;

use vstd::prelude::*;

use vstd::pervasive::unreached;

use crate::genetic_algorithm::breeding::{
    blend, blended, crossed_over, lemma_slots_replaced, lemma_slots_replaced_uniform, mutate_all,
    mutated, ramp, recombine, replace_slots, replacement_rate, slots_replaced,
};
use crate::genetic_algorithm::extremes::{
    best_entry, first_best, first_worst, is_first_best, lemma_first_best_exists, worst_entry,
};
use crate::genetic_algorithm::selection::{
    check_record, check_roulette_pool, is_mating_pool, is_record, is_roulette_pool, Selection,
    Tournament,
};
use crate::genotype::Genotype;
use crate::loader_config::{Config, ConfigError, PopType, SelectionMethod};
use crate::permutation::{identity_order, is_permutation, lemma_reordered_identity};
use crate::population::{uniform, Individual, Population};
use crate::random::RandomSource;
use crate::rate::Rate;

verus! {

/// The phases of a run. A generation goes through the phases from
/// `Evaluate` to `Blend`, in this order.
#[derive(Debug, Copy, Clone, PartialEq, Eq, Structural)]
pub enum Phase {
    /// The run has not started.
    Init,
    /// The population awaits its ranks.
    Evaluate,
    /// The best individual is looked for.
    TrackBest,
    /// Half of the population is replaced if the search has stagnated; the
    /// population then awaits its ranks once more.
    MaybeRestart,
    /// The fitness record awaits its scaling.
    Scale,
    /// The parents are selected.
    Select,
    /// The parents are recombined.
    Recombine,
    /// The offspring are mutated.
    Mutate,
    /// The offspring are blended into the population.
    Blend,
    /// The run is over.
    Done,
}

/// What the driver hands to the engine.
#[derive(Debug)]
pub enum Event {
    /// The run may begin.
    Start,
    /// The fitness record of the population.
    Evaluated(Vec<(usize, i64)>),
    /// The fitness record, scaled for selection.
    Scaled(Vec<(usize, i64)>),
    /// The mating pool.
    Selected(Vec<(usize, usize)>),
    /// Nothing: the engine may go on by itself.
    Continue,
}

/// What the engine asks of its driver.
#[derive(Debug)]
pub enum Action {
    /// Evaluate the population and answer with `Event::Evaluated`.
    Evaluate,
    /// Scale this fitness record and answer with `Event::Scaled`.
    Scale(Vec<(usize, i64)>),
    /// Select a mating pool by this scaled record and answer with
    /// `Event::Selected`.
    Select(Vec<(usize, i64)>),
    /// Nothing: answer with `Event::Continue`.
    Continue,
    /// Nothing more: the run is over.
    Done,
    /// The event did not fit the phase; nothing changed.
    Rejected,
}

/// The state of a run.
pub struct EngineState {
    pub config: Config,
    pub population: Seq<Genotype>,
    pub best_individual: Option<Genotype>,
    pub best_value: Option<i64>,
    /// Generations without improvement.
    pub stagnation: nat,
    pub generation: nat,
    pub phase: Phase,
    /// The fitness record of the generation at work: as evaluated, then as
    /// adjusted by the tracking of the best, then as scaled.
    pub record: Seq<(usize, i64)>,
    /// The mating pool of the generation at work.
    pub pool: Seq<(usize, usize)>,
    /// The offspring of the generation at work.
    pub offspring: Seq<Genotype>,
    /// A restart has been made, and its ranks are awaited.
    pub restarted: bool,
}

/// A count one higher, unless the machine cannot hold it.
pub open spec fn bumped(count: nat) -> nat {
    if count < usize::MAX {
        count + 1
    } else {
        count
    }
}

impl EngineState {
    /// The invariant of the engine: the configuration can be run, the
    /// population has its size and shape, a best individual is recorded
    /// with its rank and fits the population, the generation counter agrees
    /// with the phase, what the phase works on is well formed, and once the
    /// best has been tracked there is a best on record. A run that is over
    /// has made every generation.
    pub open spec fn wf(self) -> bool {
        let kind = self.config.pop_config.pop_type;
        let dim = self.config.pop_config.dim as nat;
        &&& self.config.wf()
        &&& self.population.len() == self.config.pop_config.pop_size
        &&& uniform(self.population, kind, dim)
        &&& self.best_individual is Some <==> self.best_value is Some
        &&& self.best_individual matches Some(best) ==> best.fits(kind, dim)
        &&& self.generation <= self.config.qtd_gen
        &&& self.stagnation <= usize::MAX
        &&& self.restarted ==> self.phase == Phase::MaybeRestart
        &&& match self.phase {
            Phase::Init => self.generation == 0,
            Phase::Done => {
                &&& self.generation == self.config.qtd_gen
                &&& self.generation >= 1 ==> self.best_value is Some
            },
            Phase::Evaluate => self.generation >= 1,
            Phase::TrackBest => {
                &&& self.generation >= 1
                &&& is_record(self.record, self.config.pop_config.pop_size as nat)
            },
            Phase::Scale | Phase::Select => {
                &&& self.generation >= 1
                &&& self.best_value is Some
                &&& is_record(self.record, self.config.pop_config.pop_size as nat)
            },
            Phase::MaybeRestart => {
                &&& self.generation >= 1
                &&& self.best_value is Some
                &&& self.restarted || is_record(
                    self.record,
                    self.config.pop_config.pop_size as nat,
                )
            },
            Phase::Recombine => {
                &&& self.generation >= 1
                &&& self.best_value is Some
                &&& is_mating_pool(self.pool, self.config.pop_config.pop_size as nat)
            },
            Phase::Mutate | Phase::Blend => {
                &&& self.generation >= 1
                &&& self.best_value is Some
                &&& self.offspring.len() == self.config.pop_config.pop_size
                &&& uniform(self.offspring, kind, dim)
            },
        }
    }

    /// The state before a run: nothing recorded, nothing counted.
    pub open spec fn initial(self) -> bool {
        &&& self.best_individual is None
        &&& self.best_value is None
        &&& self.stagnation == 0
        &&& self.generation == 0
        &&& self.phase == Phase::Init
        &&& self.record.len() == 0
        &&& self.pool.len() == 0
        &&& self.offspring.len() == 0
        &&& !self.restarted
    }

    /// A restart is due: the search has stagnated for as many generations
    /// as the configuration allows.
    pub open spec fn restart_due(self) -> bool {
        self.stagnation >= self.config.generations_to_genocide
    }
}

/// The best rank on record has not gone down.
pub open spec fn best_not_worse(before: EngineState, after: EngineState) -> bool {
    before.best_value matches Some(earlier) ==> (after.best_value matches Some(later) && later
        >= earlier)
}

/// The state and the fitness record after the best individual has been
/// looked for. Where there is no best on record, or the fittest of the record
/// ranks at least as high, the fittest becomes the best and the stagnation
/// count restarts. Else the count goes up and, under elitism, the best on
/// record takes the slot of the least fit, in the population and in the
/// record.
pub open spec fn best_kept(before: EngineState, record: Seq<(usize, i64)>) -> (
    EngineState,
    Seq<(usize, i64)>,
) {
    let top = first_best(record);
    let low = first_worst(record);
    let improved = match before.best_value {
        None => true,
        Some(best) => record[top].1 >= best,
    };
    if improved {
        (
            EngineState {
                best_individual: Some(before.population[top]),
                best_value: Some(record[top].1),
                stagnation: 0,
                ..before
            },
            record,
        )
    } else if before.config.elitism {
        (
            EngineState {
                stagnation: bumped(before.stagnation),
                population: before.population.update(low, before.best_individual.unwrap()),
                ..before
            },
            record.update(low, (low as usize, before.best_value.unwrap())),
        )
    } else {
        (EngineState { stagnation: bumped(before.stagnation), ..before }, record)
    }
}

/// A restart: half of the slots, drawn as the first half of a random order
/// of all slots, each receive a fresh individual, and the stagnation count
/// restarts. Every other slot, and all else, stays.
pub open spec fn restart_made(before: EngineState, after: EngineState) -> bool {
    exists|slots: Seq<usize>, fresh: Seq<Genotype>| #[trigger]
        restarted_by(before, slots, fresh, after)
}

/// A restart that replaces the first half of `slots` by `fresh`.
pub open spec fn restarted_by(
    before: EngineState,
    slots: Seq<usize>,
    fresh: Seq<Genotype>,
    after: EngineState,
) -> bool {
    let half = (before.config.pop_config.pop_size / 2) as nat;
    &&& is_permutation(slots)
    &&& slots.len() == before.config.pop_config.pop_size
    &&& fresh.len() == half
    &&& uniform(fresh, before.config.pop_config.pop_type, before.config.pop_config.dim as nat)
    &&& after == EngineState {
        stagnation: 0,
        population: slots_replaced(before.population, slots, fresh, half),
        ..before
    }
}

/// The share of slots that offspring take over in the generation at work.
pub open spec fn replacement_share(state: EngineState) -> nat {
    ramp(
        state.config.generation_gap@ as int,
        state.generation as int,
        state.config.qtd_gen as int,
    ) as nat
}

/// All slots of the record rank the same.
pub open spec fn flat(record: Seq<(usize, i64)>) -> bool {
    forall|i: int, j: int|
        0 <= i < record.len() && 0 <= j < record.len() ==> (#[trigger] record[i]).1
            == (#[trigger] record[j]).1
}

/// What the engine asks for when it enters the phase `Scale`. A record on
/// which all slots rank the same is not scaled: the engine goes on with the
/// record as it is. Any other record is handed out for scaling.
pub open spec fn asks_to_scale(after: EngineState, action: Action) -> bool {
    if flat(after.record) {
        action is Continue
    } else {
        action matches Action::Scale(handed) && handed@ == after.record
    }
}

/// What the engine asks for when it enters the phase `Select`. Under
/// tournament selection it selects by itself; under roulette selection it
/// hands the record out and awaits the mating pool.
pub open spec fn asks_to_select(after: EngineState, action: Action) -> bool {
    match after.config.selection_method {
        SelectionMethod::Tournament => action is Continue,
        SelectionMethod::Roulette => action matches Action::Select(handed) && handed@
            == after.record,
    }
}

/// The state after the last phase of a generation: the run moves on to the
/// next generation, or ends with the last.
pub open spec fn advanced(before: EngineState, population: Seq<Genotype>) -> EngineState {
    if before.generation >= before.config.qtd_gen {
        EngineState { population, phase: Phase::Done, ..before }
    } else {
        EngineState {
            population,
            phase: Phase::Evaluate,
            generation: before.generation + 1,
            ..before
        }
    }
}

/// One step of the engine, from the state `before` and the event to the
/// state `after` and the action. Each phase takes the one event that it
/// needs; any other event changes nothing and is rejected.
pub open spec fn stepped(before: EngineState, event: Event, after: EngineState, action: Action) -> bool {
    let pop_size = before.config.pop_config.pop_size as nat;
    match (before.phase, event) {
        (Phase::Init, Event::Start) => {
            if before.config.qtd_gen == 0 {
                after == EngineState { phase: Phase::Done, ..before } && action is Done
            } else {
                after == EngineState { phase: Phase::Evaluate, generation: 1, ..before }
                    && action is Evaluate
            }
        },
        (Phase::Evaluate, Event::Evaluated(record)) if is_record(record@, pop_size) => {
            &&& after == EngineState { phase: Phase::TrackBest, record: record@, ..before }
            &&& action is Continue
        },
        (Phase::TrackBest, Event::Continue) => {
            let (kept, adjusted) = best_kept(before, before.record);
            &&& after == EngineState { phase: Phase::MaybeRestart, record: adjusted, ..kept }
            &&& action is Continue
        },
        (Phase::MaybeRestart, Event::Continue) if !before.restarted => {
            if before.restart_due() {
                &&& restart_made(before, EngineState { restarted: false, ..after })
                &&& after.restarted
                &&& action is Evaluate
            } else {
                &&& after == EngineState { phase: Phase::Scale, ..before }
                &&& asks_to_scale(after, action)
            }
        },
        (Phase::MaybeRestart, Event::Evaluated(record)) if before.restarted && is_record(
            record@,
            pop_size,
        ) => {
            let (kept, adjusted) = best_kept(before, record@);
            &&& after == EngineState {
                phase: Phase::Scale,
                record: adjusted,
                restarted: false,
                ..kept
            }
            &&& asks_to_scale(after, action)
        },
        (Phase::Scale, Event::Scaled(scaled)) if !flat(before.record) && is_record(
            scaled@,
            pop_size,
        ) => {
            &&& after == EngineState { phase: Phase::Select, record: scaled@, ..before }
            &&& asks_to_select(after, action)
        },
        (Phase::Scale, Event::Continue) if flat(before.record) => {
            &&& after == EngineState { phase: Phase::Select, ..before }
            &&& asks_to_select(after, action)
        },
        (Phase::Select, Event::Continue) if before.config.selection_method
            == SelectionMethod::Tournament => {
            &&& after == EngineState { phase: Phase::Recombine, pool: after.pool, ..before }
            &&& is_mating_pool(after.pool, pop_size)
            &&& action is Continue
        },
        (Phase::Select, Event::Selected(pool)) if before.config.selection_method
            == SelectionMethod::Roulette && is_roulette_pool(pool@, pop_size) => {
            &&& after == EngineState { phase: Phase::Recombine, pool: pool@, ..before }
            &&& action is Continue
        },
        (Phase::Recombine, Event::Continue) => {
            &&& after == EngineState { phase: Phase::Mutate, offspring: after.offspring, ..before }
            &&& crossed_over(
                before.config.crossover_method,
                before.config.crossover_chance@,
                before.population,
                before.pool,
                after.offspring,
            )
            &&& action is Continue
        },
        (Phase::Mutate, Event::Continue) => {
            &&& after == EngineState { phase: Phase::Blend, offspring: after.offspring, ..before }
            &&& mutated(before.config.mutation_chance@, before.offspring, after.offspring)
            &&& action is Continue
        },
        (Phase::Blend, Event::Continue) => {
            &&& after == advanced(before, after.population)
            &&& blended(
                replacement_share(before),
                before.offspring,
                before.population,
                after.population,
            )
            &&& if after.phase == Phase::Done {
                action is Done
            } else {
                action is Evaluate
            }
        },
        _ => after == before && action is Rejected,
    }
}

/// The phase `later` may follow the phase `earlier`: a generation goes
/// through its phases in order, a restart holds the run in its phase until
/// the new ranks are in, and after the last phase of a generation the next
/// generation begins or the run is over.
pub open spec fn may_follow(earlier: Phase, later: Phase) -> bool {
    match earlier {
        Phase::Init => later == Phase::Evaluate || later == Phase::Done,
        Phase::Evaluate => later == Phase::TrackBest,
        Phase::TrackBest => later == Phase::MaybeRestart,
        Phase::MaybeRestart => later == Phase::MaybeRestart || later == Phase::Scale,
        Phase::Scale => later == Phase::Select,
        Phase::Select => later == Phase::Recombine,
        Phase::Recombine => later == Phase::Mutate,
        Phase::Mutate => later == Phase::Blend,
        Phase::Blend => later == Phase::Evaluate || later == Phase::Done,
        Phase::Done => false,
    }
}

/// A step that is not rejected moves the run to a phase that may follow,
/// and never back to an earlier generation.
pub proof fn lemma_phases_in_order(
    before: EngineState,
    event: Event,
    after: EngineState,
    action: Action,
)
    requires
        before.wf(),
        stepped(before, event, after, action),
        !(action is Rejected),
    ensures
        may_follow(before.phase, after.phase),
        before.generation <= after.generation <= before.generation + 1,
        after.config == before.config,
{
}

/// Looking for the best individual never lowers the best rank on record,
/// and leaves a best rank on record.
pub proof fn lemma_best_kept_not_worse(before: EngineState, record: Seq<(usize, i64)>)
    ensures
        best_not_worse(before, best_kept(before, record).0),
        best_kept(before, record).0.best_value is Some,
{
}

/// After the best has been looked for, the best rank on record is at least
/// every rank of the record. The best on record is the one that was on
/// record before, or it is the individual of a slot, with the rank that the
/// record gives the slot.
pub proof fn lemma_best_kept_tops(before: EngineState, record: Seq<(usize, i64)>)
    requires
        record.len() > 0,
    ensures
        best_kept(before, record).0.best_value matches Some(best) && forall|i: int|
            0 <= i < record.len() ==> best >= (#[trigger] record[i]).1,
        ({
            let kept = best_kept(before, record).0;
            ||| (before.best_value is Some && kept.best_value == before.best_value
                && kept.best_individual == before.best_individual)
            ||| (0 <= first_best(record) < record.len() && kept.best_value == Some(
                record[first_best(record)].1,
            ) && kept.best_individual == Some(before.population[first_best(record)]))
        }),
{
    lemma_first_best_exists(record);
    let top = first_best(record);
    assert(is_first_best(record, top));
}

/// Over any number of steps the best rank on record does not go down: what
/// holds from one state to the next holds from the first to the last.
pub proof fn lemma_best_not_worse_chains(first: EngineState, middle: EngineState, last: EngineState)
    requires
        best_not_worse(first, middle),
        best_not_worse(middle, last),
    ensures
        best_not_worse(first, last),
{
}

/// After a restart the stagnation count is 0, and exactly half of the slots
/// have been written: the slots named in the first half of the drawn order
/// are distinct, each of them holds the fresh individual made for it, and
/// every other slot holds what it held.
pub proof fn lemma_restart_replaces_half(
    before: EngineState,
    slots: Seq<usize>,
    fresh: Seq<Genotype>,
    after: EngineState,
)
    requires
        before.wf(),
        restarted_by(before, slots, fresh, after),
    ensures
        after.stagnation == 0,
        after.population.len() == before.population.len(),
        slots.take(before.config.pop_config.pop_size as int / 2).no_duplicates(),
        slots.take(before.config.pop_config.pop_size as int / 2).len()
            == before.config.pop_config.pop_size / 2,
        forall|k: int|
            0 <= k < before.config.pop_config.pop_size / 2 ==> after.population[#[trigger] slots[k] as int]
                == fresh[k],
        forall|i: int|
            0 <= i < before.population.len() && (forall|k: int|
                0 <= k < before.config.pop_config.pop_size / 2 ==> slots[k] != i)
                ==> #[trigger] after.population[i] == before.population[i],
{
    let half = (before.config.pop_config.pop_size / 2) as nat;
    lemma_slots_replaced(before.population, slots, fresh, half);
}

/// The evolution engine of one run.
pub struct GA {
    config: Config,
    population: Population,
    best_individual: Option<Individual>,
    best_individual_value: Option<i64>,
    generations_without_improvement: usize,
    generation: usize,
    phase: Phase,
    record: Vec<(usize, i64)>,
    mating_pool: Vec<(usize, usize)>,
    offspring: Population,
    restarted: bool,
}

impl View for GA {
    type V = EngineState;

    closed spec fn view(&self) -> EngineState {
        EngineState {
            config: self.config,
            population: self.population@,
            best_individual: match self.best_individual {
                Some(individual) => Some(individual@),
                None => None,
            },
            best_value: self.best_individual_value,
            stagnation: self.generations_without_improvement as nat,
            generation: self.generation as nat,
            phase: self.phase,
            record: self.record@,
            pool: self.mating_pool@,
            offspring: self.offspring@,
            restarted: self.restarted,
        }
    }
}

/// A copy of a fitness record.
fn copy_record(record: &Vec<(usize, i64)>) -> (copy: Vec<(usize, i64)>)
    ensures
        copy@ == record@,
{
    let mut copy: Vec<(usize, i64)> = Vec::with_capacity(record.len());
    let mut i: usize = 0;
    while i < record.len()
        invariant
            i <= record.len(),
            copy.len() == i,
            forall|k: int| 0 <= k < i ==> copy[k] == record[k],
        decreases record.len() - i,
    {
        copy.push(record[i]);
        i = i + 1;
    }
    assert(copy@ =~= record@);
    copy
}

/// Tells whether all slots of the record rank the same.
pub fn is_flat(record: &Vec<(usize, i64)>) -> (same: bool)
    ensures
        same == flat(record@),
{
    let mut i: usize = 1;
    while i < record.len()
        invariant
            1 <= i,
            forall|k: int| 0 <= k < i && k < record.len() ==> (#[trigger] record[k]).1 == record[0].1,
        decreases record.len() - i,
    {
        if record[i].1 != record[0].1 {
            assert(!(record@[i as int].1 == record@[0].1));
            return false;
        }
        i = i + 1;
    }
    true
}

impl GA {
    /// An engine with a random population, ready to start, or the first
    /// defect of the configuration.
    pub fn new(config: &Config, rng: &mut RandomSource) -> (outcome: Result<GA, ConfigError>)
        ensures
            match config.defect() {
                Some(defect) => outcome matches Err(error) && error == defect,
                None => outcome matches Ok(engine) && engine@.wf() && engine@.initial()
                    && engine@.config == *config,
            },
    {
        match config.validate() {
            Err(error) => Err(error),
            Ok(_) => {
                let population = Population::new(
                    config.pop_config.pop_size,
                    config.pop_config.dim,
                    &config.pop_config.pop_type,
                    rng,
                );
                Ok(
                    GA {
                        config: *config,
                        population,
                        best_individual: None,
                        best_individual_value: None,
                        generations_without_improvement: 0,
                        generation: 0,
                        phase: Phase::Init,
                        record: Vec::new(),
                        mating_pool: Vec::new(),
                        offspring: Population { individuals: Vec::new() },
                        restarted: false,
                    },
                )
            },
        }
    }

    /// An engine that starts from `population`, where the configuration can
    /// be run and the population has the size and the shape that it names.
    pub fn with_population(config: &Config, population: Population) -> (outcome: Option<GA>)
        ensures
            outcome is Some <==> config.wf() && population@.len() == config.pop_config.pop_size
                && uniform(population@, config.pop_config.pop_type, config.pop_config.dim as nat),
            outcome matches Some(engine) ==> engine@.wf() && engine@.initial() && engine@.config
                == *config && engine@.population == population@,
    {
        if config.validate().is_err() {
            return None;
        }
        if population.len() != config.pop_config.pop_size {
            return None;
        }
        if !population.fits(&config.pop_config.pop_type, config.pop_config.dim) {
            return None;
        }
        Some(
            GA {
                config: *config,
                population,
                best_individual: None,
                best_individual_value: None,
                generations_without_improvement: 0,
                generation: 0,
                phase: Phase::Init,
                record: Vec::new(),
                mating_pool: Vec::new(),
                offspring: Population { individuals: Vec::new() },
                restarted: false,
            },
        )
    }

    /// The configuration of the run.
    pub fn config(&self) -> (config: &Config)
        ensures
            *config == self@.config,
    {
        &self.config
    }

    /// The population.
    pub fn population(&self) -> (population: &Population)
        ensures
            population@ == self@.population,
    {
        &self.population
    }

    /// What the engine waits for.
    pub fn phase(&self) -> (phase: Phase)
        ensures
            phase == self@.phase,
    {
        self.phase
    }

    /// The number of the generation at work, counted from 1.
    pub fn generation(&self) -> (generation: usize)
        ensures
            generation == self@.generation,
    {
        self.generation
    }

    /// The number of generations that brought no improvement.
    pub fn generations_without_improvement(&self) -> (count: usize)
        ensures
            count == self@.stagnation,
    {
        self.generations_without_improvement
    }

    /// The fitness record of the generation at work: as evaluated, then as
    /// adjusted by the tracking of the best, then as scaled.
    pub fn record(&self) -> (record: &Vec<(usize, i64)>)
        ensures
            record@ == self@.record,
    {
        &self.record
    }

    /// The mating pool of the generation at work.
    pub fn mating_pool(&self) -> (pool: &Vec<(usize, usize)>)
        ensures
            pool@ == self@.pool,
    {
        &self.mating_pool
    }

    /// The offspring of the generation at work.
    pub fn offspring(&self) -> (offspring: &Population)
        ensures
            offspring@ == self@.offspring,
    {
        &self.offspring
    }

    /// The best individual found so far and its rank.
    pub fn best(&self) -> (best: (Option<Individual>, Option<i64>))
        ensures
            best.0 is Some <==> self@.best_individual is Some,
            best.0 matches Some(individual) ==> Some(individual@) == self@.best_individual,
            best.1 == self@.best_value,
    {
        let individual = match &self.best_individual {
            Some(individual) => Some(individual.clone()),
            None => None,
        };
        (individual, self.best_individual_value)
    }

    /// Tracks the best individual: see [`best_kept`]. Returns the fitness
    /// record, adjusted where elitism put the best on record in the place
    /// of the least fit.
    pub fn update_best(&mut self, result: &Vec<(usize, i64)>) -> (adjusted: Vec<(usize, i64)>)
        requires
            old(self)@.wf(),
            is_record(result@, old(self)@.config.pop_config.pop_size as nat),
        ensures
            (final(self)@, adjusted@) == best_kept(old(self)@, result@),
            final(self)@.wf(),
            best_not_worse(old(self)@, final(self)@),
            is_record(adjusted@, old(self)@.config.pop_config.pop_size as nat),
    {
        let top = best_entry(result);
        let low = worst_entry(result);
        let top_value = result[top].1;
        let ghost before = self@;
        assert(result@[top as int].0 == top);
        assert(result@[low as int].0 == low);
        let improved = match self.best_individual_value {
            None => true,
            Some(best) => top_value >= best,
        };
        if improved {
            let champion = self.population.individuals[top].clone();
            assert(champion@ == before.population[top as int]);
            self.generations_without_improvement = 0;
            self.best_individual_value = Some(top_value);
            self.best_individual = Some(champion);
            let adjusted = copy_record(result);
            assert(self@.population =~= before.population);
            adjusted
        } else {
            if self.generations_without_improvement < usize::MAX {
                self.generations_without_improvement = self.generations_without_improvement + 1;
            }
            if self.config.elitism {
                let (champion, best_value) = match (
                    &self.best_individual,
                    self.best_individual_value,
                ) {
                    (Some(best), Some(value)) => (best.clone(), value),
                    _ => unreached(),
                };
                self.population.individuals.set(low, champion);
                let mut adjusted = copy_record(result);
                adjusted.set(low, (low, best_value));
                assert(self@.population =~= before.population.update(
                    low as int,
                    before.best_individual.unwrap(),
                ));
                assert(adjusted@ =~= result@.update(low as int, (low, best_value)));
                adjusted
            } else {
                let adjusted = copy_record(result);
                assert(self@.population =~= before.population);
                adjusted
            }
        }
    }

    /// Restarts half of the population: see [`restart_made`].
    pub fn genocide(&mut self, rng: &mut RandomSource)
        requires
            old(self)@.wf(),
        ensures
            restart_made(old(self)@, final(self)@),
            final(self)@.wf(),
            final(self)@.stagnation == 0,
    {
        let pop_size = self.config.pop_config.pop_size;
        let half = pop_size / 2;
        let ghost before = self@;
        let fresh = Population::new(
            half,
            self.config.pop_config.dim,
            &self.config.pop_config.pop_type,
            rng,
        );
        let mut slots = identity_order(pop_size);
        rng.shuffle(&mut slots);
        proof {
            lemma_reordered_identity(slots@, pop_size as nat);
            lemma_slots_replaced_uniform(
                before.population,
                slots@,
                fresh@,
                half as nat,
                before.config.pop_config.pop_type,
                before.config.pop_config.dim as nat,
            );
        }
        replace_slots(&mut self.population, &slots, &fresh, half);
        self.generations_without_improvement = 0;
        assert(restarted_by(before, slots@, fresh@, self@));
    }

    /// Restarts half of the population where a restart is due, and tells
    /// whether it did.
    pub fn check_genocide(&mut self, rng: &mut RandomSource) -> (restarted_now: bool)
        requires
            old(self)@.wf(),
        ensures
            restarted_now == old(self)@.restart_due(),
            restarted_now ==> restart_made(old(self)@, final(self)@),
            !restarted_now ==> final(self)@ == old(self)@,
            final(self)@.wf(),
    {
        if self.generations_without_improvement >= self.config.generations_to_genocide {
            self.genocide(rng);
            true
        } else {
            false
        }
    }

    /// The offspring of the mating pool: for each pair, with the configured
    /// chance, two children of the parents, and else the parents.
    pub fn crossover(&self, mating_pool: &Vec<(usize, usize)>, rng: &mut RandomSource) -> (offspring:
        Population)
        requires
            self@.wf(),
            is_mating_pool(mating_pool@, self@.config.pop_config.pop_size as nat),
        ensures
            crossed_over(
                self@.config.crossover_method,
                self@.config.crossover_chance@,
                self@.population,
                mating_pool@,
                offspring@,
            ),
            uniform(
                offspring@,
                self@.config.pop_config.pop_type,
                self@.config.pop_config.dim as nat,
            ),
    {
        assert(self@.population[0].fits(
            self@.config.pop_config.pop_type,
            self@.config.pop_config.dim as nat,
        ));
        recombine(
            &self.population,
            mating_pool,
            self.config.crossover_method,
            self.config.crossover_chance,
            rng,
        )
    }

    /// A mutant of every individual of `new_population`, at the configured
    /// chance.
    pub fn mutation(&self, new_population: &Population, rng: &mut RandomSource) -> (mutants: Population)
        ensures
            mutated(self@.config.mutation_chance@, new_population@, mutants@),
    {
        mutate_all(new_population, self.config.mutation_chance, rng)
    }

    /// The share of slots that offspring take over in the generation at
    /// work.
    pub fn replacement_share(&self) -> (share: Rate)
        ensures
            share@ == replacement_share(self@),
    {
        replacement_rate(self.config.generation_gap, self.generation, self.config.qtd_gen)
    }

    /// The blend of `new_population` and the population: slot by slot the
    /// new individual with probability [`GA::replacement_share`], and else
    /// the one that holds the slot.
    pub fn generation_gap(&self, new_population: &Population, rng: &mut RandomSource) -> (next:
        Population)
        ensures
            blended(replacement_share(self@), new_population@, self@.population, next@),
    {
        let share = self.replacement_share();
        blend(new_population, &self.population, share, rng)
    }

    /// What the engine asks for when it enters the phase `Scale`.
    fn ask_to_scale(&self) -> (action: Action)
        ensures
            asks_to_scale(self@, action),
    {
        if is_flat(&self.record) {
            Action::Continue
        } else {
            Action::Scale(copy_record(&self.record))
        }
    }

    /// What the engine asks for when it enters the phase `Select`.
    fn ask_to_select(&self) -> (action: Action)
        ensures
            asks_to_select(self@, action),
    {
        match self.config.selection_method {
            SelectionMethod::Tournament => Action::Continue,
            SelectionMethod::Roulette => Action::Select(copy_record(&self.record)),
        }
    }

    /// One step of the run: the work of the phase at hand. The engine takes
    /// the event that the phase needs and names what it needs next. An event
    /// that does not fit changes nothing and is answered with
    /// `Action::Rejected`.
    pub fn step(&mut self, event: Event, rng: &mut RandomSource) -> (action: Action)
        requires
            old(self)@.wf(),
        ensures
            stepped(old(self)@, event, final(self)@, action),
            final(self)@.wf(),
            best_not_worse(old(self)@, final(self)@),
    {
        let pop_size = self.config.pop_config.pop_size;
        let ghost before = self@;
        match self.phase {
            Phase::Init => match event {
                Event::Start => {
                    if self.config.qtd_gen == 0 {
                        self.phase = Phase::Done;
                        Action::Done
                    } else {
                        self.generation = 1;
                        self.phase = Phase::Evaluate;
                        Action::Evaluate
                    }
                },
                _ => Action::Rejected,
            },
            Phase::Evaluate => match event {
                Event::Evaluated(record) => {
                    if !check_record(&record, pop_size) {
                        return Action::Rejected;
                    }
                    self.record = record;
                    self.phase = Phase::TrackBest;
                    Action::Continue
                },
                _ => Action::Rejected,
            },
            Phase::TrackBest => match event {
                Event::Continue => {
                    let record = copy_record(&self.record);
                    let adjusted = self.update_best(&record);
                    self.record = adjusted;
                    self.phase = Phase::MaybeRestart;
                    Action::Continue
                },
                _ => Action::Rejected,
            },
            Phase::MaybeRestart => match event {
                Event::Continue => {
                    if self.restarted {
                        return Action::Rejected;
                    }
                    if self.check_genocide(rng) {
                        let ghost replaced = self@;
                        self.restarted = true;
                        assert(EngineState { restarted: false, ..self@ } == replaced);
                        Action::Evaluate
                    } else {
                        self.phase = Phase::Scale;
                        self.ask_to_scale()
                    }
                },
                Event::Evaluated(record) => {
                    if !self.restarted || !check_record(&record, pop_size) {
                        return Action::Rejected;
                    }
                    let adjusted = self.update_best(&record);
                    self.record = adjusted;
                    self.restarted = false;
                    self.phase = Phase::Scale;
                    self.ask_to_scale()
                },
                _ => Action::Rejected,
            },
            Phase::Scale => match event {
                Event::Scaled(scaled) => {
                    if is_flat(&self.record) || !check_record(&scaled, pop_size) {
                        return Action::Rejected;
                    }
                    self.record = scaled;
                    self.phase = Phase::Select;
                    self.ask_to_select()
                },
                Event::Continue => {
                    if !is_flat(&self.record) {
                        return Action::Rejected;
                    }
                    self.phase = Phase::Select;
                    self.ask_to_select()
                },
                _ => Action::Rejected,
            },
            Phase::Select => match event {
                Event::Continue => match self.config.selection_method {
                    SelectionMethod::Tournament => {
                        let tournament = Tournament::new(self.config.kp);
                        let pool = tournament.select(&self.record, rng);
                        self.mating_pool = pool;
                        self.phase = Phase::Recombine;
                        Action::Continue
                    },
                    SelectionMethod::Roulette => Action::Rejected,
                },
                Event::Selected(pool) => match self.config.selection_method {
                    SelectionMethod::Roulette => {
                        if !check_roulette_pool(&pool, pop_size) {
                            return Action::Rejected;
                        }
                        self.mating_pool = pool;
                        self.phase = Phase::Recombine;
                        Action::Continue
                    },
                    SelectionMethod::Tournament => Action::Rejected,
                },
                _ => Action::Rejected,
            },
            Phase::Recombine => match event {
                Event::Continue => {
                    let offspring = self.crossover(&self.mating_pool, rng);
                    self.offspring = offspring;
                    self.phase = Phase::Mutate;
                    Action::Continue
                },
                _ => Action::Rejected,
            },
            Phase::Mutate => match event {
                Event::Continue => {
                    let mutants = self.mutation(&self.offspring, rng);
                    proof {
                        let kind = before.config.pop_config.pop_type;
                        let dim = before.config.pop_config.dim as nat;
                        assert forall|i: int| 0 <= i < mutants@.len() implies (
                        #[trigger] mutants@[i]).fits(kind, dim) by {
                            assert(before.offspring[i].fits(kind, dim));
                        }
                    }
                    self.offspring = mutants;
                    self.phase = Phase::Blend;
                    Action::Continue
                },
                _ => Action::Rejected,
            },
            Phase::Blend => match event {
                Event::Continue => {
                    let next = self.generation_gap(&self.offspring, rng);
                    proof {
                        let kind = before.config.pop_config.pop_type;
                        let dim = before.config.pop_config.dim as nat;
                        assert forall|i: int| 0 <= i < next@.len() implies (#[trigger] next@[i]).fits(
                            kind,
                            dim,
                        ) by {
                            assert(before.offspring[i].fits(kind, dim));
                            assert(before.population[i].fits(kind, dim));
                        }
                    }
                    self.population = next;
                    if self.generation >= self.config.qtd_gen {
                        self.phase = Phase::Done;
                        Action::Done
                    } else {
                        self.generation = self.generation + 1;
                        self.phase = Phase::Evaluate;
                        Action::Evaluate
                    }
                },
                _ => Action::Rejected,
            },
            Phase::Done => Action::Rejected,
        }
    }
}

} // verus!
