//! An evolutionary-search engine over fixed-length genotypes.
//!
//! A genotype is a bit vector or a permutation. The engine evolves a population
//! of them for a configured number of generations: it tracks the best
//! individual found, restarts half of the population when the search
//! stagnates, selects parents, recombines and mutates them, and blends the
//! offspring into the population.
//!
//! Fitness values enter the library as integer ranks: any encoding of the
//! objective's values that keeps their order. Probabilities are exact
//! fractions over [`rate::RATE_SCALE`].
pub mod rate;
pub mod random;
pub mod loader_config;
pub mod permutation;
pub mod operators;
pub mod cycle;
pub mod partially_mapped;
pub mod variation;
pub mod genotype;
pub mod population;
pub mod individual_creation;
pub mod genetic_algorithm;
pub mod framework;
pub mod problem_factory;
