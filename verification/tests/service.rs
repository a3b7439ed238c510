use adinmo::service::{
    answer_for, calculate_most_frequent_numbers, draw_value, draw_values, returned_values,
    stored_value, value_from_byte, REQUESTS_PER_RUN,
};
use std::collections::HashMap;

#[test]
fn main_test_single_occurrences() {
    let mut freq_map = HashMap::new();
    freq_map.insert(1, 1);
    freq_map.insert(2, 1);
    freq_map.insert(3, 1);

    let result = calculate_most_frequent_numbers(freq_map);
    assert!(result.is_empty());
}

#[test]
fn main_test_multiple_occurrences() {
    let mut freq_map = HashMap::new();
    freq_map.insert(1, 2);
    freq_map.insert(2, 1);
    freq_map.insert(3, 3);

    let result = calculate_most_frequent_numbers(freq_map);
    assert_eq!(result, vec![1, 3]);
}

#[test]
fn main_test_various_occurrences() {
    let mut freq_map = HashMap::new();
    for &num in &[3, 2, 5, 1, 5, 7, 2, 1] {
        *freq_map.entry(num).or_insert(0) += 1;
    }
    let result = calculate_most_frequent_numbers(freq_map);
    assert_eq!(result, vec![1, 2, 5]);
}

#[test]
fn main_test_single_repeated_number() {
    let mut freq_map = HashMap::new();
    for &num in &[5, 7, 7] {
        *freq_map.entry(num).or_insert(0) += 1;
    }
    let result = calculate_most_frequent_numbers(freq_map);
    assert_eq!(result, vec![7]);
}

#[test]
fn main_test_no_occurrences() {
    let freq_map = HashMap::new();

    let result = calculate_most_frequent_numbers(freq_map);
    assert!(result.is_empty());
}

#[test]
fn negative_and_zero_counts_are_not_repeats() {
    let mut freq_map: HashMap<u64, i32> = HashMap::new();
    freq_map.insert(4, -3);
    freq_map.insert(5, 0);
    freq_map.insert(6, 2);
    assert_eq!(calculate_most_frequent_numbers(freq_map), vec![6]);
}

#[test]
fn bytes_map_to_numbers_up_to_ten() {
    assert_eq!(value_from_byte(0), 0);
    assert_eq!(value_from_byte(10), 10);
    assert_eq!(value_from_byte(11), 0);
    assert_eq!(value_from_byte(255), 2);
    assert!(draw_value() <= 10);
}

#[test]
fn a_run_draws_thirty_numbers_in_range() {
    let values = draw_values(REQUESTS_PER_RUN);
    assert_eq!(values.len(), 30);
    assert!(values.iter().all(|&v| v <= 10));
}

#[test]
fn stored_value_is_the_number_as_i32() {
    assert_eq!(stored_value(7), 7);
    assert_eq!(stored_value(u64::MAX), -1);
}

#[test]
fn answers_without_a_number_are_left_out() {
    let extracted = vec![Some(3), None, Some(8), Some(3), None];
    assert_eq!(returned_values(&extracted), vec![3, 8, 3]);
    assert!(returned_values(&vec![None, None]).is_empty());
}

#[test]
fn answer_lists_values_returned_more_than_once() {
    assert_eq!(answer_for(&vec![3, 2, 5, 1, 5, 7, 2, 1]), "[1,2,5]");
    assert_eq!(answer_for(&vec![4, 9]), "[]");
    assert_eq!(answer_for(&vec![]), "[]");
}

#[test]
fn twelve_numbers_up_to_ten_never_answer_an_empty_array() {
    let values: Vec<u64> = vec![0, 1, 2, 3, 4, 5, 6, 7, 8, 9, 10, 4];
    assert_eq!(answer_for(&values), "[4]");
    let drawn: Vec<u64> = draw_values(REQUESTS_PER_RUN).iter().map(|&v| v as u64).collect();
    assert_ne!(answer_for(&drawn), "[]");
}
