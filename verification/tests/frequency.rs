use adinmo::frequency::{record_value, record_value_u32, tally, tally_u32};
use adinmo::json::response_body;
use adinmo::service::calculate_most_frequent_numbers;
use std::collections::HashMap;

#[test]
fn tally_counts_each_value() {
    let counts = tally(&vec![3, 2, 5, 1, 5, 7, 2, 1, 5]);
    assert_eq!(counts.len(), 5);
    assert_eq!(counts[&5], 3);
    assert_eq!(counts[&2], 2);
    assert_eq!(counts[&7], 1);
    assert!(!counts.contains_key(&4));
    assert!(tally(&vec![]).is_empty());
}

#[test]
fn tally_u32_counts_each_value() {
    let counts = tally_u32(&vec![9, 9, 0]);
    assert_eq!(counts.len(), 2);
    assert_eq!(counts[&9], 2);
    assert_eq!(counts[&0], 1);
}

#[test]
fn recording_adds_one() {
    let mut counts: HashMap<u64, i32> = HashMap::new();
    record_value(&mut counts, 4);
    record_value(&mut counts, 4);
    record_value(&mut counts, 6);
    assert_eq!(counts[&4], 2);
    assert_eq!(counts[&6], 1);
    let mut wide: HashMap<u64, u32> = HashMap::new();
    record_value_u32(&mut wide, 1);
    assert_eq!(wide[&1], 1);
}

#[test]
fn response_body_is_a_compact_json_array() {
    assert_eq!(response_body(&vec![1, 3]), "[1,3]");
    assert_eq!(response_body(&vec![]), "[]");
    assert_eq!(response_body(&vec![0, 10, 18446744073709551615]), "[0,10,18446744073709551615]");
}

#[test]
fn repeated_list_does_not_depend_on_insertion_order() {
    let pairs = [(9u64, 2i32), (1, 3), (4, 1), (7, 2), (0, 5)];
    let mut forward: HashMap<u64, i32> = HashMap::new();
    for &(k, c) in pairs.iter() {
        forward.insert(k, c);
    }
    let mut backward: HashMap<u64, i32> = HashMap::new();
    for &(k, c) in pairs.iter().rev() {
        backward.insert(k, c);
    }
    let a = calculate_most_frequent_numbers(forward);
    let b = calculate_most_frequent_numbers(backward);
    assert_eq!(a, vec![0, 1, 7, 9]);
    assert_eq!(a, b);
}

#[test]
fn tallied_then_selected_values_are_those_seen_twice() {
    let values = vec![8, 1, 8, 2, 3, 3, 3, 9];
    let listed = calculate_most_frequent_numbers(tally(&values));
    assert_eq!(listed, vec![3, 8]);
}
