//! The parameters of a run, and the check that they fit together.
use vstd::prelude::*;

use crate::rate::Rate;

verus! {

/// How a genotype represents a candidate solution.
#[derive(Debug, Copy, Clone, PartialEq, Eq, Structural)]
pub enum PopType {
    Binary,
    Real,
    Integer,
    Permuted,
}

/// How parents are selected.
#[derive(Debug, Copy, Clone, PartialEq, Eq, Structural)]
pub enum SelectionMethod {
    Roulette,
    Tournament,
}

/// How two parents are recombined.
#[derive(Debug, Copy, Clone, PartialEq, Eq, Structural)]
pub enum CrossOverMethod {
    OnePoint,
    TwoPoints,
    Uniform,
    Cycle,
    Permuted,
}

/// The shape of a population.
#[derive(Debug, Copy, Clone)]
pub struct PopConfig {
    pub dim: usize,
    pub pop_size: usize,
    pub pop_type: PopType,
}

/// The parameters of a run.
#[derive(Debug, Copy, Clone)]
pub struct Config {
    pub pop_config: PopConfig,
    pub qtd_gen: usize,
    pub qtd_runs: usize,
    pub generations_to_genocide: usize,
    pub elitism: bool,
    pub selection_method: SelectionMethod,
    pub crossover_method: CrossOverMethod,
    pub crossover_chance: Rate,
    pub mutation_chance: Rate,
    pub kp: Rate,
    pub generation_gap: Rate,
}

/// Why a configuration cannot be run.
#[derive(Debug, Copy, Clone, PartialEq, Eq, Structural)]
pub enum ConfigError {
    /// Genotypes would have no genes.
    ZeroDimension,
    /// The population would have no individuals.
    EmptyPopulation,
    /// The population could not be split into pairs of parents.
    OddPopulation,
    /// Only bit vectors and permutations are evolved.
    UnsupportedRepresentation,
    /// The recombination operator does not work on the representation.
    OperatorMismatch,
}

/// The recombination operator `method` works on genotypes of kind `pop_type`:
/// one-point, two-point and uniform crossover on bit vectors, cycle and
/// partially mapped crossover on permutations.
pub open spec fn operator_fits(method: CrossOverMethod, pop_type: PopType) -> bool {
    match method {
        CrossOverMethod::OnePoint | CrossOverMethod::TwoPoints | CrossOverMethod::Uniform => pop_type
            == PopType::Binary,
        CrossOverMethod::Cycle | CrossOverMethod::Permuted => pop_type == PopType::Permuted,
    }
}

impl Config {
    /// The first defect of the configuration, if it has one.
    pub open spec fn defect(&self) -> Option<ConfigError> {
        if self.pop_config.dim == 0 {
            Some(ConfigError::ZeroDimension)
        } else if self.pop_config.pop_size == 0 {
            Some(ConfigError::EmptyPopulation)
        } else if self.pop_config.pop_size % 2 != 0 {
            Some(ConfigError::OddPopulation)
        } else if self.pop_config.pop_type != PopType::Binary && self.pop_config.pop_type
            != PopType::Permuted {
            Some(ConfigError::UnsupportedRepresentation)
        } else if !operator_fits(self.crossover_method, self.pop_config.pop_type) {
            Some(ConfigError::OperatorMismatch)
        } else {
            None
        }
    }

    /// The configuration can be run.
    pub open spec fn wf(&self) -> bool {
        self.defect() is None
    }

    /// Accepts the configuration, or names its first defect.
    pub fn validate(&self) -> (outcome: Result<(), ConfigError>)
        ensures
            outcome == match self.defect() {
                Some(error) => Err::<(), ConfigError>(error),
                None => Ok::<(), ConfigError>(()),
            },
            outcome.is_ok() == self.wf(),
    {
        if self.pop_config.dim == 0 {
            return Err(ConfigError::ZeroDimension);
        }
        if self.pop_config.pop_size == 0 {
            return Err(ConfigError::EmptyPopulation);
        }
        if self.pop_config.pop_size % 2 != 0 {
            return Err(ConfigError::OddPopulation);
        }
        let binary = match self.pop_config.pop_type {
            PopType::Binary => true,
            PopType::Permuted => false,
            _ => {
                return Err(ConfigError::UnsupportedRepresentation);
            },
        };
        let for_bits = match self.crossover_method {
            CrossOverMethod::OnePoint | CrossOverMethod::TwoPoints | CrossOverMethod::Uniform => true,
            CrossOverMethod::Cycle | CrossOverMethod::Permuted => false,
        };
        if binary != for_bits {
            return Err(ConfigError::OperatorMismatch);
        }
        Ok(())
    }
}

impl Default for Config {
    /// Ten bit vectors of a hundred genes, evolved for a hundred generations
    /// in each of three runs, with tournament selection, one-point crossover
    /// and elitism.
    fn default() -> (config: Config)
        ensures
            config.wf(),
            config.pop_config.dim == 100,
            config.pop_config.pop_size == 10,
            config.pop_config.pop_type == PopType::Binary,
            config.qtd_gen == 100,
            config.qtd_runs == 3,
            config.generations_to_genocide == 250,
            config.elitism,
            config.selection_method == SelectionMethod::Tournament,
            config.crossover_method == CrossOverMethod::OnePoint,
            config.crossover_chance@ == 900_000_000,
            config.mutation_chance@ == 30_000_000,
            config.kp@ == 900_000_000,
            config.generation_gap@ == 1_000_000_000,
    {
        Config {
            pop_config: PopConfig { dim: 100, pop_size: 10, pop_type: PopType::Binary },
            qtd_gen: 100,
            qtd_runs: 3,
            generations_to_genocide: 250,
            elitism: true,
            selection_method: SelectionMethod::Tournament,
            crossover_method: CrossOverMethod::OnePoint,
            crossover_chance: Rate::new(900_000_000).unwrap(),
            mutation_chance: Rate::new(30_000_000).unwrap(),
            kp: Rate::new(900_000_000).unwrap(),
            generation_gap: Rate::one(),
        }
    }
}

} // verus!
