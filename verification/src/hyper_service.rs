//! The variant of the number service that keeps its counts in `u32` and
//! stores nothing.

use crate::frequency::{
    counts_of_u32, frequencies, insert_sorted, lists_repeated, strictly_increasing, tally_u32,
};
use crate::json::{json_number_array, response_body};
use std::collections::HashMap;
use vstd::prelude::*;
use vstd::std_specs::hash::spec_hash_map_iter;
use vstd::std_specs::iter::IteratorSpec;

verus! {

broadcast use vstd::std_specs::hash::group_hash_axioms;

/// The numbers whose count exceeds one, in ascending order.
pub fn calculate_most_frequent_numbers(freq_map: HashMap<u64, u32>) -> (result: Vec<u64>)
    ensures
        lists_repeated(result@, counts_of_u32(freq_map@)),
{
    let mut result: Vec<u64> = Vec::new();
    for entry in it: freq_map.iter()
        invariant
            strictly_increasing(result@),
            forall|x: u64| #[trigger] result@.contains(x)
                ==> (freq_map@.contains_key(x) && freq_map@[x] > 1),
            forall|j: int| 0 <= j < it.index() && *it.seq()[j].1 > 1
                ==> result@.contains(*it.seq()[j].0),
    {
        let (key, count) = entry;
        proof {
            assert(it.seq() == spec_hash_map_iter(&freq_map).remaining());
        }
        if *count > 1 {
            insert_sorted(&mut result, *key);
        }
    }
    result
}

/// The answer to one run: the numbers returned more than once, ascending, as
/// a JSON array.
pub fn answer_for(values: &Vec<u64>) -> (body: String)
    requires
        values.len() <= u32::MAX,
    ensures
        exists|listed: Seq<u64>| #[trigger]
            lists_repeated(listed, frequencies(values@)) && body@ == json_number_array(listed),
{
    let counts = tally_u32(values);
    let frequent = calculate_most_frequent_numbers(counts);
    let body = response_body(&frequent);
    assert(lists_repeated(frequent@, frequencies(values@)));
    body
}

} // verus!
