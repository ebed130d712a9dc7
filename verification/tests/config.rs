use genetic_framework::framework::Framework;
use genetic_framework::loader_config::{
    Config, ConfigError, CrossOverMethod, PopType, SelectionMethod,
};
use genetic_framework::population::Individual;
use genetic_framework::random::RandomSource;
use genetic_framework::rate::{Rate, RATE_SCALE};

#[test]
fn rate_accepts_up_to_one() {
    assert_eq!(Rate::new(0).unwrap().parts(), 0);
    assert_eq!(Rate::new(30_000_000).unwrap().parts(), 30_000_000);
    assert_eq!(Rate::new(RATE_SCALE).unwrap().parts(), RATE_SCALE);
    assert!(Rate::new(RATE_SCALE + 1).is_none());
    assert!(Rate::new(u32::MAX).is_none());
    assert_eq!(Rate::zero().parts(), 0);
    assert_eq!(Rate::half().parts(), 500_000_000);
    assert_eq!(Rate::one().parts(), 1_000_000_000);
}

#[test]
fn chance_is_never_at_zero_and_always_at_one() {
    let mut rng = RandomSource::seeded(17);
    for _ in 0..1000 {
        assert!(!rng.chance(Rate::zero()));
        assert!(rng.chance(Rate::one()));
    }
}

#[test]
fn chance_follows_the_rate() {
    let mut rng = RandomSource::seeded(17);
    let quarter = Rate::new(250_000_000).unwrap();
    let hits = (0..4000).filter(|_| rng.chance(quarter)).count();
    assert!(800 < hits && hits < 1200);
}

#[test]
fn draws_stay_in_their_range() {
    let mut rng = RandomSource::seeded(17);
    for _ in 0..1000 {
        assert!(rng.below(7) < 7);
        let value = rng.between(3, 5);
        assert!(3 <= value && value < 5);
    }
    assert_eq!(rng.below(1), 0);
    assert_eq!(rng.between(8, 9), 8);
}

#[test]
fn shuffle_keeps_the_items() {
    let mut rng = RandomSource::seeded(17);
    let mut items: Vec<usize> = (0..50).collect();
    rng.shuffle(&mut items);
    assert_ne!(items, (0..50).collect::<Vec<usize>>());
    items.sort();
    assert_eq!(items, (0..50).collect::<Vec<usize>>());
}

#[test]
fn seeded_sources_repeat_and_differ_by_seed() {
    let mut first = RandomSource::seeded(99);
    let mut second = RandomSource::seeded(99);
    let mut other = RandomSource::seeded(100);
    let a: Vec<usize> = (0..20).map(|_| first.below(1000)).collect();
    let b: Vec<usize> = (0..20).map(|_| second.below(1000)).collect();
    let c: Vec<usize> = (0..20).map(|_| other.below(1000)).collect();
    assert_eq!(a, b);
    assert_ne!(a, c);
    let mut fresh = RandomSource::from_entropy().unwrap();
    assert!(fresh.below(10) < 10);
    let _ = fresh.coin();
}

#[test]
fn default_configuration_is_valid() {
    let config = Config::default();
    assert_eq!(config.validate(), Ok(()));
    assert_eq!(config.pop_config.dim, 100);
    assert_eq!(config.pop_config.pop_size, 10);
    assert_eq!(config.pop_config.pop_type, PopType::Binary);
    assert_eq!(config.qtd_gen, 100);
    assert_eq!(config.qtd_runs, 3);
    assert_eq!(config.generations_to_genocide, 250);
    assert!(config.elitism);
    assert_eq!(config.selection_method, SelectionMethod::Tournament);
    assert_eq!(config.crossover_method, CrossOverMethod::OnePoint);
    assert_eq!(config.crossover_chance.parts(), 900_000_000);
    assert_eq!(config.mutation_chance.parts(), 30_000_000);
    assert_eq!(config.kp.parts(), 900_000_000);
    assert_eq!(config.generation_gap.parts(), 1_000_000_000);
}

#[test]
fn validate_names_the_first_defect() {
    let mut config = Config::default();
    config.pop_config.dim = 0;
    config.pop_config.pop_size = 0;
    assert_eq!(config.validate(), Err(ConfigError::ZeroDimension));
    config.pop_config.dim = 8;
    assert_eq!(config.validate(), Err(ConfigError::EmptyPopulation));
    config.pop_config.pop_size = 9;
    config.pop_config.pop_type = PopType::Real;
    assert_eq!(config.validate(), Err(ConfigError::OddPopulation));
    config.pop_config.pop_size = 10;
    assert_eq!(config.validate(), Err(ConfigError::UnsupportedRepresentation));
    config.pop_config.pop_type = PopType::Integer;
    assert_eq!(config.validate(), Err(ConfigError::UnsupportedRepresentation));
    config.pop_config.pop_type = PopType::Permuted;
    assert_eq!(config.validate(), Err(ConfigError::OperatorMismatch));
    config.crossover_method = CrossOverMethod::Cycle;
    assert_eq!(config.validate(), Ok(()));
    config.crossover_method = CrossOverMethod::Permuted;
    assert_eq!(config.validate(), Ok(()));
    config.pop_config.pop_type = PopType::Binary;
    assert_eq!(config.validate(), Err(ConfigError::OperatorMismatch));
    config.crossover_method = CrossOverMethod::Uniform;
    assert_eq!(config.validate(), Ok(()));
    config.crossover_method = CrossOverMethod::TwoPoints;
    assert_eq!(config.validate(), Ok(()));
}

fn bits(individual: &Individual) -> Vec<bool> {
    match individual {
        Individual::Binary(genes) => genes.clone(),
        Individual::Permuted(_) => panic!("not a bit vector"),
    }
}

#[test]
fn framework_keeps_the_strictly_better_run() {
    let mut framework = Framework::new(Config::default());
    assert!(framework.runs_left());
    assert!(framework.outcome().0.is_none());
    assert!(framework.outcome().1.is_none());
    framework.record_run(Individual::Binary(vec![true, false]), 5);
    assert_eq!(framework.outcome().1, Some(5));
    assert_eq!(bits(&framework.outcome().0.unwrap()), vec![true, false]);
    // a tie keeps the earlier run
    framework.record_run(Individual::Binary(vec![false, true]), 5);
    assert_eq!(framework.outcome().1, Some(5));
    assert_eq!(bits(&framework.outcome().0.unwrap()), vec![true, false]);
    assert!(framework.runs_left());
    framework.record_run(Individual::Binary(vec![true, true]), 6);
    assert_eq!(framework.outcome().1, Some(6));
    assert_eq!(bits(&framework.outcome().0.unwrap()), vec![true, true]);
    assert!(!framework.runs_left());
}

#[test]
fn framework_keeps_the_first_run_whatever_its_rank() {
    let mut framework = Framework::new(Config::default());
    framework.record_run(Individual::Binary(vec![false]), i64::MIN);
    assert_eq!(framework.outcome().1, Some(i64::MIN));
    framework.record_run(Individual::Binary(vec![true]), -3);
    assert_eq!(framework.outcome().1, Some(-3));
    framework.record_run(Individual::Binary(vec![false]), -4);
    assert_eq!(framework.outcome().1, Some(-3));
    assert_eq!(bits(&framework.outcome().0.unwrap()), vec![true]);
}

#[test]
fn framework_makes_the_engine_of_the_next_run() {
    let mut rng = RandomSource::seeded(1);
    let framework = Framework::new(Config::default());
    let engine = framework.next_run(&mut rng).unwrap();
    assert_eq!(engine.population().len(), 10);
    assert_eq!(engine.generation(), 0);
    let mut broken = Config::default();
    broken.pop_config.pop_size = 3;
    assert!(matches!(
        Framework::new(broken).next_run(&mut rng),
        Err(ConfigError::OddPopulation)
    ));
}
