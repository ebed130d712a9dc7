use genetic_framework::cycle::{cycle_crossover, cycle_members};
use genetic_framework::operators::{exchange_range, exchange_unmarked, flip_bits, swap_slots};
use genetic_framework::partially_mapped::{partially_mapped_child, partially_mapped_crossover};
use genetic_framework::permutation::{check_permutation, identity_order, inverse};

#[test]
fn exchange_range_swaps_the_middle() {
    let first = vec![true, true, true, true];
    let second = vec![false, false, false, false];
    let (child_1, child_2) = exchange_range(&first, &second, 1, 3);
    assert_eq!(child_1, vec![true, false, false, true]);
    assert_eq!(child_2, vec![false, true, true, false]);
}

#[test]
fn exchange_range_stops_at_the_shorter_parent() {
    let first = vec![1u8, 2, 3, 4, 5];
    let second = vec![9u8, 8, 7];
    let (child_1, child_2) = exchange_range(&first, &second, 2, 5);
    assert_eq!(child_1, vec![1, 2, 7]);
    assert_eq!(child_2, vec![9, 8, 3]);
}

#[test]
fn exchange_range_with_empty_range_copies_the_parents() {
    let first = vec![true, false];
    let second = vec![false, true];
    let (child_1, child_2) = exchange_range(&first, &second, 1, 1);
    assert_eq!(child_1, first);
    assert_eq!(child_2, second);
}

#[test]
fn exchange_unmarked_follows_the_mask() {
    let first = vec![1usize, 2, 3, 4];
    let second = vec![5usize, 6, 7, 8];
    let keep = vec![true, false, false, true];
    let (child_1, child_2) = exchange_unmarked(&first, &second, &keep);
    assert_eq!(child_1, vec![1, 6, 7, 4]);
    assert_eq!(child_2, vec![5, 2, 3, 8]);
}

#[test]
fn flip_bits_inverts_marked_slots() {
    let bits = vec![true, false, true];
    let flips = vec![true, true, false];
    assert_eq!(flip_bits(&bits, &flips), vec![false, true, true]);
}

#[test]
fn flip_bits_without_flips_is_identity_and_with_all_flips_is_complement() {
    let bits = vec![true, false, true, true];
    assert_eq!(flip_bits(&bits, &vec![false; 4]), bits);
    assert_eq!(flip_bits(&bits, &vec![true; 4]), vec![false, true, false, false]);
}

#[test]
fn swap_slots_applies_swaps_in_slot_order() {
    let order = vec![0usize, 1, 2, 3];
    let partners = vec![Some(2), None, Some(3), None];
    // slot 0 <-> slot 2 gives [2, 1, 0, 3]; slot 2 <-> slot 3 gives [2, 1, 3, 0]
    assert_eq!(swap_slots(&order, &partners), vec![2, 1, 3, 0]);
}

#[test]
fn swap_slots_without_partners_changes_nothing() {
    let order = vec![3usize, 1, 0, 2];
    assert_eq!(swap_slots(&order, &vec![None; 4]), order);
}

#[test]
fn swap_slots_with_itself_changes_nothing() {
    let order = vec![1usize, 0, 2];
    let partners = vec![Some(0), Some(1), Some(2)];
    assert_eq!(swap_slots(&order, &partners), order);
}

#[test]
fn check_permutation_accepts_and_rejects() {
    assert!(check_permutation(&vec![2, 0, 1]));
    assert!(check_permutation(&vec![]));
    assert!(!check_permutation(&vec![0, 0, 1]));
    assert!(!check_permutation(&vec![0, 3, 1]));
}

#[test]
fn identity_order_counts_up() {
    assert_eq!(identity_order(4), vec![0, 1, 2, 3]);
    assert_eq!(identity_order(0), Vec::<usize>::new());
}

#[test]
fn inverse_names_the_slot_of_each_value() {
    assert_eq!(inverse(&vec![2, 0, 3, 1]), vec![1, 3, 0, 2]);
}

#[test]
fn cycle_members_marks_the_cycle_through_slot_zero() {
    let first = vec![0usize, 1, 2, 3, 4, 5, 6, 7];
    let second = vec![7usize, 4, 1, 0, 2, 5, 3, 6];
    assert_eq!(
        cycle_members(&first, &second),
        vec![true, false, false, true, false, false, true, true]
    );
}

#[test]
fn cycle_crossover_keeps_the_cycle_and_exchanges_the_rest() {
    let first = vec![0usize, 1, 2, 3, 4, 5, 6, 7];
    let second = vec![7usize, 4, 1, 0, 2, 5, 3, 6];
    let (child_1, child_2) = cycle_crossover(&first, &second);
    assert_eq!(child_1, vec![0, 4, 1, 3, 2, 5, 6, 7]);
    assert_eq!(child_2, vec![7, 1, 2, 0, 4, 5, 3, 6]);
    assert!(check_permutation(&child_1));
    assert!(check_permutation(&child_2));
}

#[test]
fn cycle_crossover_of_exchanged_parents_exchanges_the_children() {
    let first = vec![3usize, 0, 4, 1, 2, 5];
    let second = vec![0usize, 3, 2, 5, 4, 1];
    let (child_1, child_2) = cycle_crossover(&first, &second);
    let (other_1, other_2) = cycle_crossover(&second, &first);
    assert_eq!(other_1, child_2);
    assert_eq!(other_2, child_1);
}

#[test]
fn cycle_crossover_of_equal_parents_returns_them() {
    let parent = vec![2usize, 0, 1];
    let (child_1, child_2) = cycle_crossover(&parent, &parent);
    assert_eq!(child_1, parent);
    assert_eq!(child_2, parent);
}

#[test]
fn partially_mapped_crossover_remaps_outside_the_cuts() {
    let first = vec![0usize, 1, 2, 3, 4, 5, 6, 7, 8];
    let second = vec![8usize, 2, 6, 7, 1, 5, 4, 0, 3];
    let (child_1, child_2) = partially_mapped_crossover(&first, &second, 3, 7);
    assert_eq!(child_1, vec![0, 6, 2, 7, 1, 5, 4, 3, 8]);
    assert_eq!(child_2, vec![8, 2, 1, 3, 4, 5, 6, 0, 7]);
    assert!(check_permutation(&child_1));
    assert!(check_permutation(&child_2));
}

#[test]
fn partially_mapped_child_with_empty_segment_is_its_own_parent() {
    let own = vec![2usize, 0, 1, 3];
    let donor = vec![3usize, 2, 1, 0];
    assert_eq!(partially_mapped_child(&own, &donor, 2, 2), own);
}

#[test]
fn partially_mapped_child_with_full_segment_is_the_donor() {
    let own = vec![2usize, 0, 1, 3];
    let donor = vec![3usize, 2, 1, 0];
    assert_eq!(partially_mapped_child(&own, &donor, 0, 4), donor);
}

#[test]
fn partially_mapped_crossover_of_exchanged_parents_exchanges_the_children() {
    let first = vec![4usize, 2, 0, 3, 1, 5];
    let second = vec![1usize, 5, 3, 0, 2, 4];
    let (child_1, child_2) = partially_mapped_crossover(&first, &second, 1, 4);
    let (other_1, other_2) = partially_mapped_crossover(&second, &first, 1, 4);
    assert_eq!(other_1, child_2);
    assert_eq!(other_2, child_1);
    assert!(check_permutation(&child_1));
    assert!(check_permutation(&child_2));
}
