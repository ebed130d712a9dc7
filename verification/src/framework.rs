//! The repetition of runs: of several independent runs the framework keeps
//! the best result.
use vstd::prelude::*;

use crate::genetic_algorithm::GA;
use crate::genotype::Genotype;
use crate::loader_config::{Config, ConfigError};
use crate::population::Individual;
use crate::random::RandomSource;

verus! {

/// What the framework has on record.
pub struct FrameworkState {
    pub config: Config,
    /// The best individual of the best run so far.
    pub best_individual: Option<Genotype>,
    /// Its rank.
    pub result: Option<i64>,
    /// The number of runs that have been recorded.
    pub runs_done: nat,
}

/// The record after a run that ended with `new_individual` at rank
/// `new_result`. The first run is always taken over. A later run is taken
/// over only if it ranks strictly higher, so of two equal runs the earlier
/// stays.
pub open spec fn run_recorded(
    before: FrameworkState,
    new_individual: Genotype,
    new_result: i64,
) -> FrameworkState {
    let better = match before.result {
        None => true,
        Some(result) => new_result > result,
    };
    if better {
        FrameworkState {
            best_individual: Some(new_individual),
            result: Some(new_result),
            runs_done: before.runs_done + 1,
            ..before
        }
    } else {
        FrameworkState { runs_done: before.runs_done + 1, ..before }
    }
}

/// The keeper of the best result of several runs.
pub struct Framework {
    config: Config,
    best_individual: Option<Individual>,
    result: Option<i64>,
    runs_done: usize,
}

impl View for Framework {
    type V = FrameworkState;

    closed spec fn view(&self) -> FrameworkState {
        FrameworkState {
            config: self.config,
            best_individual: match self.best_individual {
                Some(individual) => Some(individual@),
                None => None,
            },
            result: self.result,
            runs_done: self.runs_done as nat,
        }
    }
}

impl Framework {
    /// A framework with nothing on record.
    pub fn new(config: Config) -> (framework: Framework)
        ensures
            framework@ == (FrameworkState {
                config,
                best_individual: None,
                result: None,
                runs_done: 0,
            }),
    {
        Framework { config, best_individual: None, result: None, runs_done: 0 }
    }

    /// Tells whether a run is still to be made.
    pub fn runs_left(&self) -> (left: bool)
        ensures
            left == (self@.runs_done < self@.config.qtd_runs),
    {
        self.runs_done < self.config.qtd_runs
    }

    /// The engine of the next run, with a fresh random population, or the
    /// first defect of the configuration.
    pub fn next_run(&self, rng: &mut RandomSource) -> (outcome: Result<GA, ConfigError>)
        ensures
            match self@.config.defect() {
                Some(defect) => outcome matches Err(error) && error == defect,
                None => outcome matches Ok(engine) && engine@.wf() && engine@.initial()
                    && engine@.config == self@.config,
            },
    {
        GA::new(&self.config, rng)
    }

    /// Records the result of a run: see [`run_recorded`].
    pub fn record_run(&mut self, new_individual: Individual, new_result: i64)
        requires
            old(self)@.runs_done < old(self)@.config.qtd_runs,
        ensures
            final(self)@ == run_recorded(old(self)@, new_individual@, new_result),
    {
        let better = match self.result {
            None => true,
            Some(result) => new_result > result,
        };
        if better {
            self.best_individual = Some(new_individual);
            self.result = Some(new_result);
        }
        self.runs_done = self.runs_done + 1;
    }

    /// The best individual of all recorded runs and its rank.
    pub fn outcome(&self) -> (best: (Option<Individual>, Option<i64>))
        ensures
            best.0 is Some <==> self@.best_individual is Some,
            best.0 matches Some(individual) ==> Some(individual@) == self@.best_individual,
            best.1 == self@.result,
    {
        let individual = match &self.best_individual {
            Some(individual) => Some(individual.clone()),
            None => None,
        };
        (individual, self.result)
    }
}

} // verus!
