use genetic_framework::genetic_algorithm::breeding::{
    blend, mutate_all, pair_by, recombine, replace_slots, replacement_rate, slot_by,
};
use genetic_framework::genetic_algorithm::extremes::{best_entry, worst_entry};
use genetic_framework::genetic_algorithm::run::RunError;
use genetic_framework::genetic_algorithm::{is_flat, Action, Event, Phase, GA};
use genetic_framework::loader_config::{
    Config, ConfigError, CrossOverMethod, PopConfig, PopType, SelectionMethod,
};
use genetic_framework::population::{Individual, Population};
use genetic_framework::problem_factory::sat_3::SAT3;
use genetic_framework::random::RandomSource;
use genetic_framework::rate::Rate;

fn bits(individual: &Individual) -> Vec<bool> {
    match individual {
        Individual::Binary(genes) => genes.clone(),
        Individual::Permuted(_) => panic!("not a bit vector"),
    }
}

fn order(individual: &Individual) -> Vec<usize> {
    match individual {
        Individual::Permuted(genes) => genes.clone(),
        Individual::Binary(_) => panic!("not a permutation"),
    }
}

fn ones(individual: &Individual) -> i64 {
    bits(individual).iter().filter(|&&bit| bit).count() as i64
}

fn displaced(individual: &Individual) -> i64 {
    let genes = order(individual);
    -(genes.iter().enumerate().filter(|(slot, &value)| *slot != value).count() as i64)
}

fn small_config() -> Config {
    let mut config = Config::default();
    config.pop_config = PopConfig { dim: 4, pop_size: 4, pop_type: PopType::Binary };
    config.qtd_gen = 3;
    config
}

fn four_bit_population() -> Population {
    Population {
        individuals: vec![
            Individual::Binary(vec![true, false, false, false]),
            Individual::Binary(vec![true, true, false, false]),
            Individual::Binary(vec![false, true, true, false]),
            Individual::Binary(vec![false, false, false, false]),
        ],
    }
}

fn evaluate(engine: &GA, fitness: &dyn Fn(&Individual) -> i64) -> Vec<(usize, i64)> {
    engine
        .population()
        .individuals
        .iter()
        .enumerate()
        .map(|(slot, individual)| (slot, fitness(individual)))
        .collect()
}

fn drive(
    engine: &mut GA,
    rng: &mut RandomSource,
    fitness: &dyn Fn(&Individual) -> i64,
) -> (Option<Individual>, Option<i64>) {
    let mut action = engine.step(Event::Start, rng);
    loop {
        action = match action {
            Action::Evaluate => {
                let record = evaluate(engine, fitness);
                engine.step(Event::Evaluated(record), rng)
            }
            Action::Continue => engine.step(Event::Continue, rng),
            Action::Scale(record) => engine.step(Event::Scaled(record), rng),
            Action::Select(record) => {
                let pairs = record.len() / 2;
                let pool = (0..pairs).map(|pair| (2 * pair, 2 * pair + 1)).collect();
                engine.step(Event::Selected(pool), rng)
            }
            Action::Done => break,
            Action::Rejected => panic!("the engine rejected an event"),
        };
    }
    engine.best()
}

#[test]
fn identical_solutions_report_the_number_of_satisfied_clauses() {
    let mut config = Config::default();
    config.pop_config = PopConfig { dim: 4, pop_size: 10, pop_type: PopType::Binary };
    config.qtd_gen = 1;
    config.mutation_chance = Rate::zero();
    config.crossover_chance = Rate::zero();
    let instance = SAT3::new(&vec![(1, 2, 3), (-1, 2, 4), (1, -3, -4)], config);
    assert!(instance.covered_by(4));
    let solution = vec![true, true, true, true];
    let population = Population {
        individuals: (0..10).map(|_| Individual::Binary(solution.clone())).collect(),
    };
    let mut engine = GA::with_population(&config, population).unwrap();
    let mut rng = RandomSource::seeded(1);
    let (best, value) =
        drive(&mut engine, &mut rng, &|individual| instance.fitness(individual) as i64);
    assert_eq!(value, Some(3));
    assert_eq!(bits(&best.unwrap()), solution);
    assert_eq!(engine.phase(), Phase::Done);
}

#[test]
fn same_seed_gives_the_same_run() {
    let mut config = Config::default();
    config.pop_config = PopConfig { dim: 24, pop_size: 12, pop_type: PopType::Binary };
    config.qtd_gen = 30;
    config.generations_to_genocide = 5;
    let mut outcomes = Vec::new();
    for _ in 0..2 {
        let mut rng = RandomSource::seeded(2024);
        let mut engine = GA::new(&config, &mut rng).unwrap();
        let (best, value) = drive(&mut engine, &mut rng, &ones);
        outcomes.push((bits(&best.unwrap()), value.unwrap()));
    }
    assert_eq!(outcomes[0], outcomes[1]);
}

#[test]
fn same_seed_gives_the_same_run_of_permutations() {
    let mut config = Config::default();
    config.pop_config = PopConfig { dim: 9, pop_size: 8, pop_type: PopType::Permuted };
    config.crossover_method = CrossOverMethod::Permuted;
    config.selection_method = SelectionMethod::Roulette;
    config.qtd_gen = 20;
    config.generations_to_genocide = 3;
    let mut outcomes = Vec::new();
    for _ in 0..2 {
        let mut rng = RandomSource::seeded(77);
        let mut engine = GA::new(&config, &mut rng).unwrap();
        let (best, value) = drive(&mut engine, &mut rng, &displaced);
        let best = best.unwrap();
        assert!(best.is_valid());
        assert!(engine.population().fits(&PopType::Permuted, 9));
        outcomes.push((order(&best), value.unwrap()));
    }
    assert_eq!(outcomes[0], outcomes[1]);
}

#[test]
fn cycle_runs_keep_the_population_permutations() {
    let mut config = Config::default();
    config.pop_config = PopConfig { dim: 7, pop_size: 6, pop_type: PopType::Permuted };
    config.crossover_method = CrossOverMethod::Cycle;
    config.mutation_chance = Rate::new(200_000_000).unwrap();
    config.qtd_gen = 15;
    let mut rng = RandomSource::seeded(5);
    let mut engine = GA::new(&config, &mut rng).unwrap();
    let (best, _) = drive(&mut engine, &mut rng, &displaced);
    assert!(best.unwrap().is_valid());
    assert!(engine.population().fits(&PopType::Permuted, 7));
    assert_eq!(engine.generation(), 15);
}

#[test]
fn new_rejects_a_defective_configuration() {
    let mut rng = RandomSource::seeded(1);
    let mut config = Config::default();
    config.pop_config.pop_size = 7;
    assert!(matches!(GA::new(&config, &mut rng), Err(ConfigError::OddPopulation)));
    config.pop_config.pop_size = 8;
    config.pop_config.dim = 0;
    assert!(matches!(GA::new(&config, &mut rng), Err(ConfigError::ZeroDimension)));
}

#[test]
fn with_population_rejects_a_population_of_the_wrong_shape() {
    let config = small_config();
    assert!(GA::with_population(&config, four_bit_population()).is_some());
    let mut short = four_bit_population();
    short.individuals.pop();
    assert!(GA::with_population(&config, short).is_none());
    let mut mixed = four_bit_population();
    mixed.individuals[2] = Individual::Permuted(vec![0, 1, 2, 3]);
    assert!(GA::with_population(&config, mixed).is_none());
    let mut long = four_bit_population();
    long.individuals[1] = Individual::Binary(vec![true; 5]);
    assert!(GA::with_population(&config, long).is_none());
}

#[test]
fn update_best_adopts_the_first_of_the_fittest() {
    let config = small_config();
    let mut engine = GA::with_population(&config, four_bit_population()).unwrap();
    let record = vec![(0, 5), (1, 9), (2, 9), (3, 1)];
    let adjusted = engine.update_best(&record);
    assert_eq!(adjusted, record);
    let (best, value) = engine.best();
    assert_eq!(value, Some(9));
    assert_eq!(bits(&best.unwrap()), vec![true, true, false, false]);
    assert_eq!(engine.generations_without_improvement(), 0);
}

#[test]
fn update_best_without_improvement_counts_and_reinserts_the_best() {
    let config = small_config();
    let mut engine = GA::with_population(&config, four_bit_population()).unwrap();
    engine.update_best(&vec![(0, 5), (1, 9), (2, 9), (3, 1)]);
    let adjusted = engine.update_best(&vec![(0, 3), (1, 2), (2, 2), (3, 4)]);
    assert_eq!(adjusted, vec![(0, 3), (1, 9), (2, 2), (3, 4)]);
    assert_eq!(engine.generations_without_improvement(), 1);
    assert_eq!(engine.best().1, Some(9));
    assert_eq!(bits(&engine.population().individuals[1]), vec![true, true, false, false]);
    assert_eq!(bits(&engine.population().individuals[2]), vec![false, true, true, false]);
}

#[test]
fn update_best_without_elitism_leaves_population_and_record() {
    let mut config = small_config();
    config.elitism = false;
    let mut engine = GA::with_population(&config, four_bit_population()).unwrap();
    engine.update_best(&vec![(0, 5), (1, 9), (2, 9), (3, 1)]);
    let record = vec![(0, 3), (1, 2), (2, 2), (3, 4)];
    let adjusted = engine.update_best(&record);
    assert_eq!(adjusted, record);
    assert_eq!(engine.generations_without_improvement(), 1);
    assert_eq!(bits(&engine.population().individuals[1]), vec![true, true, false, false]);
    assert_eq!(bits(&engine.population().individuals[3]), vec![false, false, false, false]);
}

#[test]
fn update_best_counts_a_tie_as_improvement() {
    let config = small_config();
    let mut engine = GA::with_population(&config, four_bit_population()).unwrap();
    engine.update_best(&vec![(0, 5), (1, 9), (2, 9), (3, 1)]);
    engine.update_best(&vec![(0, 3), (1, 2), (2, 2), (3, 4)]);
    assert_eq!(engine.generations_without_improvement(), 1);
    // slot 1 now holds the best again; a tie with it from slot 3 is taken over
    engine.update_best(&vec![(0, 3), (1, 2), (2, 2), (3, 9)]);
    assert_eq!(engine.generations_without_improvement(), 0);
    assert_eq!(engine.best().1, Some(9));
    assert_eq!(bits(&engine.best().0.unwrap()), vec![false, false, false, false]);
}

#[test]
fn best_rank_never_goes_down() {
    let config = small_config();
    let mut engine = GA::with_population(&config, four_bit_population()).unwrap();
    let records = [
        vec![(0, -4), (1, -9), (2, -7), (3, -8)],
        vec![(0, -5), (1, -5), (2, -5), (3, -5)],
        vec![(0, 0), (1, -9), (2, 2), (3, -8)],
        vec![(0, 1), (1, 1), (2, 1), (3, 1)],
        vec![(0, 2), (1, 1), (2, 1), (3, 1)],
    ];
    let expected = [-4, -4, 2, 2, 2];
    let mut last = i64::MIN;
    for (record, best) in records.iter().zip(expected) {
        engine.update_best(record);
        let value = engine.best().1.unwrap();
        assert!(value >= last);
        assert_eq!(value, best);
        last = value;
    }
}

#[test]
fn genocide_resets_the_count_and_rewrites_at_most_half_the_slots() {
    let mut config = small_config();
    config.pop_config = PopConfig { dim: 32, pop_size: 10, pop_type: PopType::Binary };
    let mut rng = RandomSource::seeded(3);
    let mut engine = GA::new(&config, &mut rng).unwrap();
    let record: Vec<(usize, i64)> = (0..10).map(|slot| (slot, 10 - slot as i64)).collect();
    engine.update_best(&record);
    engine.update_best(&(0..10).map(|slot| (slot, 0)).collect());
    assert_eq!(engine.generations_without_improvement(), 1);
    let before: Vec<Vec<bool>> = engine.population().individuals.iter().map(bits).collect();
    engine.genocide(&mut rng);
    assert_eq!(engine.generations_without_improvement(), 0);
    assert_eq!(engine.population().len(), 10);
    assert!(engine.population().fits(&PopType::Binary, 32));
    let after: Vec<Vec<bool>> = engine.population().individuals.iter().map(bits).collect();
    let changed = (0..10).filter(|&slot| before[slot] != after[slot]).count();
    assert_eq!(changed, 5);
}

#[test]
fn check_genocide_restarts_only_when_due() {
    let mut config = small_config();
    config.generations_to_genocide = 2;
    let mut rng = RandomSource::seeded(3);
    let mut engine = GA::with_population(&config, four_bit_population()).unwrap();
    engine.update_best(&vec![(0, 5), (1, 9), (2, 9), (3, 1)]);
    assert!(!engine.check_genocide(&mut rng));
    engine.update_best(&vec![(0, 1), (1, 1), (2, 1), (3, 1)]);
    assert!(!engine.check_genocide(&mut rng));
    engine.update_best(&vec![(0, 1), (1, 1), (2, 1), (3, 1)]);
    assert_eq!(engine.generations_without_improvement(), 2);
    assert!(engine.check_genocide(&mut rng));
    assert_eq!(engine.generations_without_improvement(), 0);
}

fn go_on(engine: &mut GA, rng: &mut RandomSource) -> Action {
    engine.step(Event::Continue, rng)
}

#[test]
fn step_follows_the_phases_of_a_generation() {
    let mut config = small_config();
    config.qtd_gen = 2;
    let mut rng = RandomSource::seeded(6);
    let mut engine = GA::with_population(&config, four_bit_population()).unwrap();
    assert_eq!(engine.phase(), Phase::Init);
    assert!(matches!(engine.step(Event::Start, &mut rng), Action::Evaluate));
    assert_eq!(engine.phase(), Phase::Evaluate);
    assert_eq!(engine.generation(), 1);
    let record = evaluate(&engine, &ones);
    assert_eq!(record, vec![(0, 1), (1, 2), (2, 2), (3, 0)]);
    assert!(matches!(engine.step(Event::Evaluated(record.clone()), &mut rng), Action::Continue));
    assert_eq!(engine.phase(), Phase::TrackBest);
    assert_eq!(engine.record(), &record);
    assert!(engine.best().1.is_none());
    assert!(matches!(go_on(&mut engine, &mut rng), Action::Continue));
    assert_eq!(engine.phase(), Phase::MaybeRestart);
    assert_eq!(engine.best().1, Some(2));
    let handed = match go_on(&mut engine, &mut rng) {
        Action::Scale(handed) => handed,
        other => panic!("expected a record to scale, got {:?}", other),
    };
    assert_eq!(handed, record);
    assert_eq!(engine.phase(), Phase::Scale);
    let scaled = vec![(0, 10), (1, 20), (2, 20), (3, 0)];
    assert!(matches!(engine.step(Event::Scaled(scaled.clone()), &mut rng), Action::Continue));
    assert_eq!(engine.phase(), Phase::Select);
    assert_eq!(engine.record(), &scaled);
    assert!(matches!(go_on(&mut engine, &mut rng), Action::Continue));
    assert_eq!(engine.phase(), Phase::Recombine);
    assert_eq!(engine.mating_pool().len(), 2);
    assert!(matches!(go_on(&mut engine, &mut rng), Action::Continue));
    assert_eq!(engine.phase(), Phase::Mutate);
    assert_eq!(engine.offspring().len(), 4);
    assert!(matches!(go_on(&mut engine, &mut rng), Action::Continue));
    assert_eq!(engine.phase(), Phase::Blend);
    assert!(matches!(go_on(&mut engine, &mut rng), Action::Evaluate));
    assert_eq!(engine.phase(), Phase::Evaluate);
    assert_eq!(engine.generation(), 2);
    // the default gap is 1: the offspring take over every slot
    for slot in 0..4 {
        assert_eq!(
            bits(&engine.population().individuals[slot]),
            bits(&engine.offspring().individuals[slot])
        );
    }
    let record = evaluate(&engine, &ones);
    let mut action = engine.step(Event::Evaluated(record), &mut rng);
    loop {
        action = match action {
            Action::Continue => go_on(&mut engine, &mut rng),
            Action::Scale(handed) => engine.step(Event::Scaled(handed), &mut rng),
            other => break assert!(matches!(other, Action::Done)),
        };
    }
    assert_eq!(engine.phase(), Phase::Done);
    assert_eq!(engine.generation(), 2);
    assert!(engine.best().1.unwrap() >= 2);
    assert!(matches!(go_on(&mut engine, &mut rng), Action::Rejected));
    assert!(matches!(engine.step(Event::Start, &mut rng), Action::Rejected));
}

#[test]
fn step_with_no_generations_is_done_at_once() {
    let mut config = small_config();
    config.qtd_gen = 0;
    let mut rng = RandomSource::seeded(6);
    let mut engine = GA::with_population(&config, four_bit_population()).unwrap();
    assert!(matches!(engine.step(Event::Start, &mut rng), Action::Done));
    assert_eq!(engine.phase(), Phase::Done);
    assert!(engine.best().0.is_none());
    assert!(engine.best().1.is_none());
}

#[test]
fn step_rejects_events_that_do_not_fit() {
    let config = small_config();
    let mut rng = RandomSource::seeded(6);
    let mut engine = GA::with_population(&config, four_bit_population()).unwrap();
    assert!(matches!(engine.step(Event::Scaled(vec![]), &mut rng), Action::Rejected));
    assert!(matches!(go_on(&mut engine, &mut rng), Action::Rejected));
    assert_eq!(engine.phase(), Phase::Init);
    engine.step(Event::Start, &mut rng);
    assert!(matches!(engine.step(Event::Start, &mut rng), Action::Rejected));
    assert!(matches!(go_on(&mut engine, &mut rng), Action::Rejected));
    let short = vec![(0, 1), (1, 1)];
    assert!(matches!(engine.step(Event::Evaluated(short), &mut rng), Action::Rejected));
    let misnumbered = vec![(0, 1), (2, 1), (1, 1), (3, 1)];
    assert!(matches!(engine.step(Event::Evaluated(misnumbered), &mut rng), Action::Rejected));
    assert!(matches!(engine.step(Event::Selected(vec![(0, 1), (2, 3)]), &mut rng), Action::Rejected));
    assert_eq!(engine.phase(), Phase::Evaluate);
    assert_eq!(engine.generation(), 1);
    assert!(engine.best().1.is_none());
    let record = vec![(0, 1), (1, 2), (2, 3), (3, 4)];
    engine.step(Event::Evaluated(record.clone()), &mut rng);
    assert!(matches!(engine.step(Event::Evaluated(record.clone()), &mut rng), Action::Rejected));
    assert_eq!(engine.phase(), Phase::TrackBest);
    go_on(&mut engine, &mut rng);
    // no restart has been made: the phase takes no ranks
    assert!(matches!(engine.step(Event::Evaluated(record.clone()), &mut rng), Action::Rejected));
    assert_eq!(engine.phase(), Phase::MaybeRestart);
    go_on(&mut engine, &mut rng);
    assert_eq!(engine.phase(), Phase::Scale);
    // the record is not flat: it has to be scaled
    assert!(matches!(go_on(&mut engine, &mut rng), Action::Rejected));
    assert!(matches!(engine.step(Event::Scaled(vec![(0, 1)]), &mut rng), Action::Rejected));
    assert_eq!(engine.phase(), Phase::Scale);
    engine.step(Event::Scaled(record.clone()), &mut rng);
    assert_eq!(engine.phase(), Phase::Select);
    // under tournament selection the engine selects by itself
    assert!(matches!(engine.step(Event::Selected(vec![(0, 1), (2, 3)]), &mut rng), Action::Rejected));
    assert_eq!(engine.phase(), Phase::Select);
}

#[test]
fn step_does_not_ask_to_scale_a_flat_record() {
    let mut config = small_config();
    config.qtd_gen = 2;
    let mut rng = RandomSource::seeded(6);
    let mut engine = GA::with_population(&config, four_bit_population()).unwrap();
    engine.step(Event::Start, &mut rng);
    let flat = vec![(0, 7), (1, 7), (2, 7), (3, 7)];
    engine.step(Event::Evaluated(flat.clone()), &mut rng);
    go_on(&mut engine, &mut rng);
    assert!(matches!(go_on(&mut engine, &mut rng), Action::Continue));
    assert_eq!(engine.phase(), Phase::Scale);
    let scaled = vec![(0, 1), (1, 2), (2, 3), (3, 4)];
    assert!(matches!(engine.step(Event::Scaled(scaled), &mut rng), Action::Rejected));
    assert!(matches!(go_on(&mut engine, &mut rng), Action::Continue));
    assert_eq!(engine.phase(), Phase::Select);
    assert_eq!(engine.record(), &flat);
    assert_eq!(engine.best().1, Some(7));
}

#[test]
fn step_under_roulette_asks_for_the_mating_pool() {
    let mut config = small_config();
    config.selection_method = SelectionMethod::Roulette;
    config.qtd_gen = 1;
    config.crossover_chance = Rate::zero();
    config.mutation_chance = Rate::zero();
    let mut rng = RandomSource::seeded(6);
    let mut engine = GA::with_population(&config, four_bit_population()).unwrap();
    engine.step(Event::Start, &mut rng);
    let record = evaluate(&engine, &ones);
    engine.step(Event::Evaluated(record), &mut rng);
    go_on(&mut engine, &mut rng);
    let scaled = match go_on(&mut engine, &mut rng) {
        Action::Scale(handed) => handed,
        other => panic!("expected a record to scale, got {:?}", other),
    };
    let handed = match engine.step(Event::Scaled(scaled.clone()), &mut rng) {
        Action::Select(handed) => handed,
        other => panic!("expected a record to select by, got {:?}", other),
    };
    assert_eq!(handed, scaled);
    assert_eq!(engine.phase(), Phase::Select);
    assert!(matches!(go_on(&mut engine, &mut rng), Action::Rejected));
    assert!(matches!(engine.step(Event::Selected(vec![(0, 4), (1, 2)]), &mut rng), Action::Rejected));
    assert!(matches!(engine.step(Event::Selected(vec![(0, 1)]), &mut rng), Action::Rejected));
    // a slot paired with itself, and a slot that is first parent twice
    assert!(matches!(engine.step(Event::Selected(vec![(2, 1), (1, 1)]), &mut rng), Action::Rejected));
    assert!(matches!(engine.step(Event::Selected(vec![(2, 1), (2, 0)]), &mut rng), Action::Rejected));
    assert_eq!(engine.phase(), Phase::Select);
    assert!(matches!(
        engine.step(Event::Selected(vec![(2, 1), (1, 0)]), &mut rng),
        Action::Continue
    ));
    assert_eq!(engine.mating_pool(), &vec![(2, 1), (1, 0)]);
    assert!(matches!(go_on(&mut engine, &mut rng), Action::Continue));
    assert!(matches!(go_on(&mut engine, &mut rng), Action::Continue));
    assert!(matches!(go_on(&mut engine, &mut rng), Action::Done));
    // no crossover, no mutation, full replacement: the pool is the population
    let population: Vec<Vec<bool>> = engine.population().individuals.iter().map(bits).collect();
    assert_eq!(
        population,
        vec![
            vec![false, true, true, false],
            vec![true, true, false, false],
            vec![true, true, false, false],
            vec![true, false, false, false],
        ]
    );
}

#[test]
fn step_restarts_when_the_search_stagnates() {
    let mut config = small_config();
    config.generations_to_genocide = 1;
    config.qtd_gen = 5;
    let mut rng = RandomSource::seeded(6);
    let mut engine = GA::with_population(&config, four_bit_population()).unwrap();
    engine.step(Event::Start, &mut rng);
    engine.step(Event::Evaluated(vec![(0, 5), (1, 9), (2, 9), (3, 1)]), &mut rng);
    let mut action = go_on(&mut engine, &mut rng);
    loop {
        action = match action {
            Action::Continue => go_on(&mut engine, &mut rng),
            Action::Scale(handed) => engine.step(Event::Scaled(handed), &mut rng),
            other => break assert!(matches!(other, Action::Evaluate)),
        };
    }
    assert_eq!(engine.generation(), 2);
    // worse than the best on record: the count reaches the limit of 1
    let worse = vec![(0, 1), (1, 2), (2, 3), (3, 4)];
    engine.step(Event::Evaluated(worse.clone()), &mut rng);
    go_on(&mut engine, &mut rng);
    assert_eq!(engine.generations_without_improvement(), 1);
    assert!(matches!(go_on(&mut engine, &mut rng), Action::Evaluate));
    assert_eq!(engine.phase(), Phase::MaybeRestart);
    assert_eq!(engine.generations_without_improvement(), 0);
    assert_eq!(engine.generation(), 2);
    // the restarted population awaits its ranks: the engine does not go on
    assert!(matches!(go_on(&mut engine, &mut rng), Action::Rejected));
    assert!(matches!(engine.step(Event::Evaluated(worse), &mut rng), Action::Scale(_)));
    assert_eq!(engine.phase(), Phase::Scale);
    assert_eq!(engine.generations_without_improvement(), 1);
    assert_eq!(engine.best().1, Some(9));
    // elitism has put the best on record in the place of the least fit
    assert_eq!(engine.record(), &vec![(0, 9), (1, 2), (2, 3), (3, 4)]);
}

#[test]
fn replacement_rate_rises_in_a_straight_line() {
    let half = Rate::new(500_000_000).unwrap();
    assert_eq!(replacement_rate(half, 0, 10).parts(), 500_000_000);
    assert_eq!(replacement_rate(half, 2, 10).parts(), 625_000_000);
    assert_eq!(replacement_rate(half, 4, 10).parts(), 750_000_000);
    assert_eq!(replacement_rate(half, 7, 10).parts(), 937_500_000);
    assert_eq!(replacement_rate(half, 8, 10).parts(), 1_000_000_000);
    assert_eq!(replacement_rate(half, 10, 10).parts(), 1_000_000_000);
    assert_eq!(replacement_rate(Rate::zero(), 1, 3).parts(), 416_666_666);
    assert_eq!(replacement_rate(Rate::one(), 1, 10).parts(), 1_000_000_000);
    assert_eq!(replacement_rate(half, 0, 0).parts(), 1_000_000_000);
    assert_eq!(replacement_rate(half, usize::MAX, usize::MAX).parts(), 1_000_000_000);
}

#[test]
fn blend_takes_all_or_nothing_at_the_extremes() {
    let mut rng = RandomSource::seeded(9);
    let current = four_bit_population();
    let offspring = Population {
        individuals: (0..4).map(|_| Individual::Binary(vec![true; 4])).collect(),
    };
    let kept = blend(&offspring, &current, Rate::zero(), &mut rng);
    let taken = blend(&offspring, &current, Rate::one(), &mut rng);
    for slot in 0..4 {
        assert_eq!(bits(&kept.individuals[slot]), bits(&current.individuals[slot]));
        assert_eq!(bits(&taken.individuals[slot]), vec![true; 4]);
    }
    let mixed = blend(&offspring, &current, Rate::half(), &mut rng);
    for slot in 0..4 {
        let got = bits(&mixed.individuals[slot]);
        assert!(got == bits(&current.individuals[slot]) || got == vec![true; 4]);
    }
}

#[test]
fn recombine_without_chance_copies_the_parents() {
    let mut rng = RandomSource::seeded(9);
    let population = four_bit_population();
    let pool = vec![(3, 1), (2, 2)];
    let offspring = recombine(
        &population,
        &pool,
        CrossOverMethod::OnePoint,
        Rate::zero(),
        &mut rng,
    );
    let got: Vec<Vec<bool>> = offspring.individuals.iter().map(bits).collect();
    assert_eq!(
        got,
        vec![
            vec![false, false, false, false],
            vec![true, true, false, false],
            vec![false, true, true, false],
            vec![false, true, true, false],
        ]
    );
}

#[test]
fn recombine_with_full_chance_exchanges_genes_slot_by_slot() {
    let mut rng = RandomSource::seeded(9);
    let population = four_bit_population();
    let pool = vec![(0, 2), (1, 3)];
    let offspring = recombine(
        &population,
        &pool,
        CrossOverMethod::Uniform,
        Rate::one(),
        &mut rng,
    );
    assert_eq!(offspring.len(), 4);
    for (pair, (first, second)) in pool.iter().enumerate() {
        let parent_1 = bits(&population.individuals[*first]);
        let parent_2 = bits(&population.individuals[*second]);
        let child_1 = bits(&offspring.individuals[2 * pair]);
        let child_2 = bits(&offspring.individuals[2 * pair + 1]);
        for slot in 0..4 {
            let kept = child_1[slot] == parent_1[slot] && child_2[slot] == parent_2[slot];
            let exchanged = child_1[slot] == parent_2[slot] && child_2[slot] == parent_1[slot];
            assert!(kept || exchanged);
        }
    }
}

#[test]
fn mutate_all_at_the_extremes() {
    let mut rng = RandomSource::seeded(9);
    let population = four_bit_population();
    let same = mutate_all(&population, Rate::zero(), &mut rng);
    let inverted = mutate_all(&population, Rate::one(), &mut rng);
    for slot in 0..4 {
        let before = bits(&population.individuals[slot]);
        assert_eq!(bits(&same.individuals[slot]), before);
        let complement: Vec<bool> = before.iter().map(|bit| !bit).collect();
        assert_eq!(bits(&inverted.individuals[slot]), complement);
    }
}

#[test]
fn replace_slots_writes_the_named_slots_only() {
    let mut population = four_bit_population();
    let fresh = Population {
        individuals: vec![
            Individual::Binary(vec![true; 4]),
            Individual::Binary(vec![false, true, false, true]),
        ],
    };
    replace_slots(&mut population, &vec![2, 0, 1, 3], &fresh, 2);
    let got: Vec<Vec<bool>> = population.individuals.iter().map(bits).collect();
    assert_eq!(
        got,
        vec![
            vec![false, true, false, true],
            vec![true, true, false, false],
            vec![true, true, true, true],
            vec![false, false, false, false],
        ]
    );
}

#[test]
fn extremes_are_the_first_of_their_rank() {
    let record = vec![(0, 3), (1, 7), (2, -2), (3, 7), (4, -2)];
    assert_eq!(best_entry(&record), 1);
    assert_eq!(worst_entry(&record), 2);
    assert_eq!(best_entry(&vec![(0, 4)]), 0);
    assert_eq!(worst_entry(&vec![(0, 4)]), 0);
}

#[test]
fn is_flat_tells_equal_ranks() {
    assert!(is_flat(&vec![]));
    assert!(is_flat(&vec![(0, 2)]));
    assert!(is_flat(&vec![(0, 2), (1, 2), (2, 2)]));
    assert!(!is_flat(&vec![(0, 2), (1, 2), (2, 3)]));
}

fn unscaled(record: &Vec<(usize, i64)>, _generation: usize, _total: usize) -> Vec<(usize, i64)> {
    record.clone()
}

fn neighbours(record: &Vec<(usize, i64)>) -> Vec<(usize, usize)> {
    (0..record.len() / 2).map(|pair| (2 * pair, 2 * pair + 1)).collect()
}

fn silent(_generation: usize, _best: Option<i64>, _record: &Vec<(usize, i64)>) {}

#[test]
fn run_of_identical_solutions_reports_the_satisfied_clauses() {
    for method in [SelectionMethod::Tournament, SelectionMethod::Roulette] {
        let mut config = Config::default();
        config.pop_config = PopConfig { dim: 4, pop_size: 10, pop_type: PopType::Binary };
        config.qtd_gen = 1;
        config.mutation_chance = Rate::zero();
        config.crossover_chance = Rate::zero();
        config.selection_method = method;
        // the second clause does not hold under the solution
        let instance = SAT3::new(&vec![(1, 2, 3), (-1, -2, -4), (1, -3, -4), (4, 4, 4)], config);
        let solution = vec![true, true, false, true];
        let population = Population {
            individuals: (0..10).map(|_| Individual::Binary(solution.clone())).collect(),
        };
        let mut engine = GA::with_population(&config, population).unwrap();
        let mut rng = RandomSource::seeded(1);
        let (best, value) =
            instance.run(&mut engine, unscaled, neighbours, silent, &mut rng).unwrap();
        assert_eq!(value, Some(3));
        assert_eq!(bits(&best.unwrap()), solution);
        assert_eq!(engine.phase(), Phase::Done);
        assert_eq!(instance.rank(&Individual::Binary(solution.clone())), 3);
    }
}

#[test]
fn run_goes_through_every_generation_and_reports_each() {
    let mut config = Config::default();
    config.pop_config = PopConfig { dim: 16, pop_size: 8, pop_type: PopType::Binary };
    config.qtd_gen = 12;
    config.generations_to_genocide = 3;
    let reports = std::cell::RefCell::new(Vec::new());
    let mut rng = RandomSource::seeded(31);
    let mut engine = GA::new(&config, &mut rng).unwrap();
    let (best, value) = engine
        .run(
            ones,
            unscaled,
            neighbours,
            |generation: usize, best: Option<i64>, record: &Vec<(usize, i64)>| {
                reports.borrow_mut().push((generation, best.unwrap(), record.len()));
            },
            &mut rng,
        )
        .unwrap();
    assert_eq!(engine.phase(), Phase::Done);
    assert_eq!(engine.generation(), 12);
    assert_eq!(ones(&best.unwrap()), value.unwrap());
    let reports = reports.into_inner();
    assert_eq!(reports.len(), 12);
    for (index, (generation, best, size)) in reports.iter().enumerate() {
        assert_eq!(*generation, index + 1);
        assert_eq!(*size, 8);
        assert!(*best <= value.unwrap());
        if index > 0 {
            assert!(*best >= reports[index - 1].1);
        }
    }
}

#[test]
fn run_with_the_same_seed_gives_the_same_result() {
    let mut config = Config::default();
    config.pop_config = PopConfig { dim: 20, pop_size: 10, pop_type: PopType::Binary };
    config.qtd_gen = 25;
    config.generations_to_genocide = 4;
    config.selection_method = SelectionMethod::Roulette;
    let mut outcomes = Vec::new();
    for _ in 0..2 {
        let mut rng = RandomSource::seeded(555);
        let mut engine = GA::new(&config, &mut rng).unwrap();
        let (best, value) = engine.run(ones, unscaled, neighbours, silent, &mut rng).unwrap();
        outcomes.push((bits(&best.unwrap()), value.unwrap()));
    }
    assert_eq!(outcomes[0], outcomes[1]);
}

#[test]
fn run_stops_where_the_scaling_hands_back_no_record() {
    let config = small_config();
    let mut rng = RandomSource::seeded(6);
    let mut engine = GA::with_population(&config, four_bit_population()).unwrap();
    let outcome = engine.run(
        ones,
        |_record: &Vec<(usize, i64)>, _generation: usize, _total: usize| vec![(0, 1)],
        neighbours,
        silent,
        &mut rng,
    );
    assert!(matches!(outcome, Err(RunError::Scaling)));
    assert_eq!(engine.phase(), Phase::Scale);
    assert_eq!(engine.generation(), 1);
}

#[test]
fn run_stops_where_the_wheel_hands_back_no_pool() {
    let mut config = small_config();
    config.selection_method = SelectionMethod::Roulette;
    let mut rng = RandomSource::seeded(6);
    let mut engine = GA::with_population(&config, four_bit_population()).unwrap();
    let outcome = engine.run(
        ones,
        unscaled,
        |_record: &Vec<(usize, i64)>| vec![(0, 0), (1, 2)],
        silent,
        &mut rng,
    );
    assert!(matches!(outcome, Err(RunError::Selection)));
    assert_eq!(engine.phase(), Phase::Select);
}

#[test]
fn run_of_no_generations_finds_nothing() {
    let mut config = small_config();
    config.qtd_gen = 0;
    let mut rng = RandomSource::seeded(6);
    let mut engine = GA::with_population(&config, four_bit_population()).unwrap();
    let (best, value) = engine.run(ones, unscaled, neighbours, silent, &mut rng).unwrap();
    assert!(best.is_none());
    assert!(value.is_none());
}

#[test]
fn evaluate_ranks_each_slot() {
    let config = small_config();
    let engine = GA::with_population(&config, four_bit_population()).unwrap();
    assert_eq!(engine.evaluate(&ones), vec![(0, 1), (1, 2), (2, 2), (3, 0)]);
}

#[test]
fn slot_by_takes_the_offspring_or_keeps_the_current() {
    let offspring = Individual::Binary(vec![true, true]);
    let current = Individual::Binary(vec![false, false]);
    assert_eq!(bits(&slot_by(&offspring, &current, true)), vec![true, true]);
    assert_eq!(bits(&slot_by(&offspring, &current, false)), vec![false, false]);
}

#[test]
fn pair_by_recombines_or_passes_the_parents_through() {
    let mut rng = RandomSource::seeded(12);
    let parent_1 = Individual::Permuted(vec![0, 1, 2, 3, 4, 5, 6, 7]);
    let parent_2 = Individual::Permuted(vec![7, 4, 1, 0, 2, 5, 3, 6]);
    let (same_1, same_2) = pair_by(&parent_1, &parent_2, CrossOverMethod::Cycle, false, &mut rng);
    assert_eq!(order(&same_1), order(&parent_1));
    assert_eq!(order(&same_2), order(&parent_2));
    let (child_1, child_2) = pair_by(&parent_1, &parent_2, CrossOverMethod::Cycle, true, &mut rng);
    assert_eq!(order(&child_1), vec![0, 4, 1, 3, 2, 5, 6, 7]);
    assert_eq!(order(&child_2), vec![7, 1, 2, 0, 4, 5, 3, 6]);
    // parents that the operator does not take pass through where no cross is drawn
    let bits_1 = Individual::Binary(vec![true]);
    let (kept_1, kept_2) = pair_by(&bits_1, &parent_2, CrossOverMethod::Cycle, false, &mut rng);
    assert_eq!(bits(&kept_1), vec![true]);
    assert_eq!(order(&kept_2), order(&parent_2));
}

#[test]
fn run_reports_an_individual_with_its_rank_that_tops_the_first_population() {
    for (seed, method) in [(3, SelectionMethod::Tournament), (4, SelectionMethod::Roulette)] {
        let mut config = Config::default();
        config.pop_config = PopConfig { dim: 12, pop_size: 6, pop_type: PopType::Binary };
        config.qtd_gen = 9;
        config.generations_to_genocide = 2;
        config.selection_method = method;
        let mut rng = RandomSource::seeded(seed);
        let mut engine = GA::new(&config, &mut rng).unwrap();
        let first: Vec<i64> = engine.population().individuals.iter().map(ones).collect();
        let (best, value) = engine.run(ones, unscaled, neighbours, silent, &mut rng).unwrap();
        let (best, value) = (best.unwrap(), value.unwrap());
        assert_eq!(ones(&best), value);
        assert!(best.fits(&PopType::Binary, 12));
        for rank in first {
            assert!(value >= rank);
        }
        assert_eq!(engine.population().len(), 6);
        assert!(engine.population().fits(&PopType::Binary, 12));
    }
}
