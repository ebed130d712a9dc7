use genetic_framework::loader_config::Config;
use genetic_framework::population::Individual;
use genetic_framework::problem_factory::decoding::{decimal, decode_binary, quantities};
use genetic_framework::problem_factory::nqueens::{
    count_collisions, line_collides, NQueens, ProblemNQueens,
};
use genetic_framework::problem_factory::sat_3::SAT3;
use genetic_framework::problem_factory::names::{named_after, path_mentions, problem_named};
use genetic_framework::problem_factory::{validate_args, Problems};

#[test]
fn clauses_split_literals_into_variables_and_signs() {
    let (ids, signs) = SAT3::clauses(&vec![(1, -2, 3), (-4, 4, -1)]);
    assert_eq!(ids, vec![(0, 1, 2), (3, 3, 0)]);
    assert_eq!(signs, vec![(false, true, false), (true, false, true)]);
}

#[test]
fn clauses_of_extreme_literals() {
    let (ids, signs) = SAT3::clauses(&vec![(0, i32::MAX, i32::MIN)]);
    assert_eq!(ids, vec![(u32::MAX, 2_147_483_646, 2_147_483_647)]);
    assert_eq!(signs, vec![(false, false, true)]);
}

#[test]
fn eval_solution_wants_one_literal_to_hold() {
    let solution = vec![true, false, true];
    assert!(SAT3::eval_solution(&solution, &(0, 1, 1), (false, false, false)));
    assert!(SAT3::eval_solution(&solution, &(1, 1, 1), (true, true, true)));
    assert!(!SAT3::eval_solution(&solution, &(1, 0, 2), (false, true, true)));
    assert!(SAT3::eval_solution(&solution, &(1, 0, 2), (false, true, false)));
}

#[test]
fn objective_counts_the_clauses_that_hold() {
    let instance = SAT3::new(
        &vec![(1, 2, 3), (-1, -2, -3), (-1, 2, -3), (1, 1, 1), (-2, -2, -2)],
        Config::default(),
    );
    assert_eq!(instance.clause_count(), 5);
    assert!(instance.covered_by(3));
    assert!(!instance.covered_by(2));
    assert_eq!(instance.objective(&vec![true, true, true]), 3);
    assert_eq!(instance.objective(&vec![true, false, true]), 4);
    assert_eq!(instance.objective(&vec![false, false, false]), 3);
    assert_eq!(instance.normed_objective(&vec![true, false, false]), 5);
    let individual = Individual::Binary(vec![true, false, false]);
    assert_eq!(instance.decode(&individual), vec![true, false, false]);
    assert_eq!(instance.fitness(&individual), 5);
    assert_eq!(instance.get_config().qtd_gen, 100);
}

#[test]
fn objective_of_no_clauses_is_zero() {
    let instance = SAT3::new(&vec![], Config::default());
    assert!(instance.covered_by(0));
    assert_eq!(instance.objective(&vec![]), 0);
}

#[test]
fn a_literal_zero_is_covered_by_no_assignment() {
    let instance = SAT3::new(&vec![(1, 0, 2)], Config::default());
    assert!(!instance.covered_by(1_000_000));
}

#[test]
fn queens_on_the_main_diagonal_all_collide() {
    assert_eq!(count_collisions(4, &vec![0, 1, 2, 3]), 3);
    assert_eq!(count_collisions(4, &vec![3, 2, 1, 0]), 3);
    assert!(line_collides(4, &vec![0, 1, 2, 3], 0));
    assert!(!line_collides(4, &vec![0, 1, 2, 3], 3));
}

#[test]
fn a_solution_has_no_collision() {
    assert_eq!(count_collisions(4, &vec![1, 3, 0, 2]), 0);
    assert_eq!(count_collisions(8, &vec![0, 4, 7, 5, 2, 6, 1, 3]), 0);
}

#[test]
fn each_line_counts_once_however_many_queens_it_strikes() {
    // the queen of line 0 strikes those of lines 1 and 2; that of line 1 strikes none
    assert_eq!(count_collisions(5, &vec![1, 0, 3, 4]), 2);
    assert_eq!(count_collisions(5, &vec![2, 3, 0]), 1);
}

#[test]
fn diagonals_end_at_the_edge_of_the_board() {
    // on a board of 3 the queen of column 1 cannot strike column 4
    assert_eq!(count_collisions(3, &vec![1, 9, 9, 4]), 0);
    assert_eq!(count_collisions(5, &vec![1, 9, 9, 4]), 1);
    assert_eq!(count_collisions(0, &vec![0, 1]), 0);
    assert_eq!(count_collisions(4, &vec![]), 0);
    assert_eq!(count_collisions(4, &vec![2]), 0);
}

#[test]
fn queens_problem_decodes_and_counts() {
    let problem = NQueens::new(ProblemNQueens { board_size: 4 }, Config::default());
    assert_eq!(problem.board_size(), 4);
    let individual = Individual::Permuted(vec![0, 2, 1, 3]);
    let columns = problem.decode(&individual);
    assert_eq!(columns, vec![0, 2, 1, 3]);
    assert_eq!(problem.objective(&columns), 2);
    assert_eq!(problem.get_config().qtd_runs, 3);
}

#[test]
fn decode_binary_reads_the_first_bit_as_the_highest() {
    let bits = vec![true, false, true, true, false];
    assert_eq!(decode_binary(&bits, 0, 5), 22);
    assert_eq!(decode_binary(&bits, 0, 3), 5);
    assert_eq!(decode_binary(&bits, 2, 4), 3);
    assert_eq!(decode_binary(&bits, 4, 4), 0);
    assert_eq!(decode_binary(&vec![true; 64], 0, 64), u64::MAX);
}

#[test]
fn decimal_and_quantities_of_an_individual() {
    let individual = Individual::Binary(vec![
        true, true, false, false, false, false, false, false, true, false,
    ]);
    assert_eq!(decimal(&individual), 0b1100000010);
    assert_eq!(quantities(&individual), (24, 2));
    let shortest = Individual::Binary(vec![false, false, false, false, true]);
    assert_eq!(quantities(&shortest), (1, 0));
}

#[test]
fn problems_go_by_their_names() {
    assert_eq!(Problems::SAT3.name(), "SAT-3");
    assert_eq!(Problems::Radio.name(), "RADIO");
    assert_eq!(Problems::AlgebraicFunction.name(), "ALGEBRAIC-FUNCTION");
    assert_eq!(Problems::NQueens.name(), "NQUEENS");
    for problem in
        [Problems::SAT3, Problems::Radio, Problems::AlgebraicFunction, Problems::NQueens]
    {
        assert_eq!(Problems::from_name(&problem.name()), Some(problem));
    }
    assert_eq!(Problems::from_name(&String::from("sat-3")), None);
    assert_eq!(Problems::from_name(&String::from("")), None);
}

#[test]
fn arguments_need_a_problem_to_name_an_instance_or_a_configuration() {
    assert!(validate_args(false, false, false));
    assert!(!validate_args(false, true, false));
    assert!(!validate_args(false, false, true));
    assert!(!validate_args(false, true, true));
    assert!(validate_args(true, false, false));
    assert!(validate_args(true, true, false));
    assert!(validate_args(true, false, true));
    assert!(validate_args(true, true, true));
}

#[test]
fn problems_are_found_by_name_in_any_case() {
    assert_eq!(problem_named("sat-3"), Some(Problems::SAT3));
    assert_eq!(problem_named("Radio"), Some(Problems::Radio));
    assert_eq!(problem_named("ALGEBRAIC-function"), Some(Problems::AlgebraicFunction));
    assert_eq!(problem_named("nQueens"), Some(Problems::NQueens));
    assert_eq!(problem_named("queens"), None);
    assert_eq!(problem_named(""), None);
}

#[test]
fn paths_mention_a_problem_by_its_name_in_small_letters() {
    assert!(path_mentions("data/instances/sat-3/uf20-01.cnf", "SAT-3"));
    assert!(path_mentions("sat-3", "SAT-3"));
    assert!(path_mentions("anything", ""));
    assert!(!path_mentions("data/instances/SAT-3/uf20-01.cnf", "SAT-3"));
    assert!(!path_mentions("data/instances/radio/one", "SAT-3"));
    assert!(!path_mentions("sat-", "SAT-3"));
}

#[test]
fn files_are_named_after_a_problem_by_their_head() {
    assert!(named_after("radio-default.json", "RADIO"));
    assert!(named_after("radio", "Radio"));
    assert!(!named_after("my-radio.json", "RADIO"));
    assert!(!named_after("RADIO.json", "RADIO"));
    assert!(!named_after("rad", "RADIO"));
}
