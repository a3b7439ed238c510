//! The number service that records what it stores: it draws numbers, counts
//! how often each came back, and answers with the numbers seen more than once.

use crate::frequency::{
    counts_of_i32, frequencies, insert_sorted, lists_repeated, small_values_repeat,
    strictly_increasing, tally,
};
use crate::json::{array_of_numbers_is_not_empty, json_number_array, response_body};
use std::collections::HashMap;
use vstd::std_specs::hash::spec_hash_map_iter;
use vstd::std_specs::iter::IteratorSpec;
use vstd::prelude::*;

verus! {

broadcast use vstd::std_specs::hash::group_hash_axioms;

/// The numbers whose count exceeds one, in ascending order.
pub fn calculate_most_frequent_numbers(freq_map: HashMap<u64, i32>) -> (result: Vec<u64>)
    ensures
        lists_repeated(result@, counts_of_i32(freq_map@)),
{
    let mut result: Vec<u64> = Vec::new();
    for entry in it: freq_map.iter()
        invariant
            strictly_increasing(result@),
            forall|x: u64| #[trigger] result@.contains(x)
                ==> (freq_map@.contains_key(x) && freq_map@[x] > 1),
            forall|j: int| 0 <= j < it.index() && *it.seq()[j].1 > 1
                ==> result@.contains(*it.seq()[j].0),
    {
        let (key, count) = entry;
        proof {
            assert(it.seq() == spec_hash_map_iter(&freq_map).remaining());
        }
        if *count > 1 {
            insert_sorted(&mut result, *key);
        }
    }
    result
}

/// How many numbers one run of the service asks for.
pub const REQUESTS_PER_RUN: usize = 30;

/// Calls `rand::random::<u8>()`, which draws a byte from the thread-local
/// generator. Nothing is claimed of the byte.
#[verifier::external_body]
fn random_byte() -> u8 {
    rand::random::<u8>()
}

/// The number, between 0 and 10, that a drawn byte stands for.
pub fn value_from_byte(byte: u8) -> (value: u8)
    ensures
        value == byte % 11,
{
    byte % 11
}

/// Draws one number between 0 and 10.
pub fn draw_value() -> (value: u8)
    ensures
        value <= 10,
{
    value_from_byte(random_byte())
}

/// Draws `count` numbers, each between 0 and 10.
pub fn draw_values(count: usize) -> (values: Vec<u8>)
    ensures
        values.len() == count,
        forall|i: int| 0 <= i < count ==> values[i] <= 10,
{
    let mut values: Vec<u8> = Vec::new();
    let mut i: usize = 0;
    while i < count
        invariant
            i <= count,
            values.len() == i,
            forall|j: int| 0 <= j < i ==> values[j] <= 10,
        decreases count - i,
    {
        values.push(draw_value());
        i += 1;
    }
    values
}

/// The value stored in the `generated_value` column for a returned number
/// (the number cast to `i32`).
pub fn stored_value(value: u64) -> (stored: i32)
    ensures
        stored == value as i32,
{
    value as i32
}

/// The answer to one run: the numbers returned more than once, ascending, as
/// a JSON array.
pub fn answer_for(values: &Vec<u64>) -> (body: String)
    requires
        values.len() <= i32::MAX,
    ensures
        exists|listed: Seq<u64>| #[trigger]
            lists_repeated(listed, frequencies(values@)) && body@ == json_number_array(listed),
{
    let counts = tally(values);
    let frequent = calculate_most_frequent_numbers(counts);
    let body = response_body(&frequent);
    assert(lists_repeated(frequent@, frequencies(values@)));
    body
}

/// The numbers that came back, in order, leaving out the answers that carried none.
pub open spec fn present_values(extracted: Seq<Option<u64>>) -> Seq<u64>
    decreases extracted.len(),
{
    if extracted.len() == 0 {
        Seq::empty()
    } else {
        let earlier = present_values(extracted.drop_last());
        match extracted.last() {
            Some(v) => earlier.push(v),
            None => earlier,
        }
    }
}

/// The numbers that came back, in order, leaving out the answers that carried none.
pub fn returned_values(extracted: &Vec<Option<u64>>) -> (values: Vec<u64>)
    ensures
        values@ == present_values(extracted@),
        values.len() <= extracted.len(),
{
    let mut values: Vec<u64> = Vec::new();
    let mut i: usize = 0;
    while i < extracted.len()
        invariant
            i <= extracted.len(),
            values@ == present_values(extracted@.take(i as int)),
            values.len() <= i,
        decreases extracted.len() - i,
    {
        proof {
            assert(extracted@.take(i + 1).drop_last() =~= extracted@.take(i as int));
        }
        match extracted[i] {
            Some(v) => values.push(v),
            None => {},
        }
        i += 1;
    }
    assert(extracted@.take(extracted.len() as int) =~= extracted@);
    values
}

/// When twelve or more numbers between 0 and 10 come back, some number comes
/// back twice, so the answer is never the empty array `[]`.
pub proof fn twelve_small_numbers_give_a_nonempty_answer(values: Seq<u64>, listed: Seq<u64>)
    requires
        values.len() >= 12,
        forall|i: int| 0 <= i < values.len() ==> #[trigger] values[i] <= 10,
        lists_repeated(listed, frequencies(values)),
    ensures
        listed.len() > 0,
        json_number_array(listed) != "[]"@,
{
    small_values_repeat(values, listed);
    array_of_numbers_is_not_empty(listed);
}

/// Collecting the returned numbers keeps every number an answer carried, zero
/// included, in order, and only those: nothing comes from no answers, an
/// answer with a number adds exactly that number at the end, an answer without
/// one adds nothing, and collecting two runs one after the other gives the two
/// collections one after the other.
pub proof fn returned_numbers_are_kept_in_order(
    earlier: Seq<Option<u64>>,
    later: Seq<Option<u64>>,
    v: u64,
)
    ensures
        present_values(Seq::empty()) == Seq::<u64>::empty(),
        present_values(earlier.push(Some(v))) == present_values(earlier).push(v),
        present_values(earlier.push(None)) == present_values(earlier),
        present_values(earlier + later) == present_values(earlier) + present_values(later),
        present_values(earlier).contains(v) <==> earlier.contains(Some(v)),
    decreases later.len(),
{
    assert(earlier.push(Some(v)).drop_last() =~= earlier);
    assert(earlier.push(None).drop_last() =~= earlier);
    if later.len() > 0 {
        let init = later.drop_last();
        returned_numbers_are_kept_in_order(earlier, init, v);
        assert((earlier + later).drop_last() =~= earlier + init);
        assert((earlier + later).last() == later.last());
        match later.last() {
            Some(w) => {
                assert(present_values(earlier) + present_values(later) =~= (present_values(earlier)
                    + present_values(init)).push(w));
            },
            None => {},
        }
    } else {
        assert(earlier + later =~= earlier);
        assert(present_values(later) =~= Seq::<u64>::empty());
        assert(present_values(earlier) + present_values(later) =~= present_values(earlier));
    }
    lemma_present_contains(earlier, v);
}

proof fn lemma_present_contains(extracted: Seq<Option<u64>>, v: u64)
    ensures
        present_values(extracted).contains(v) <==> extracted.contains(Some(v)),
    decreases extracted.len(),
{
    if extracted.len() > 0 {
        let init = extracted.drop_last();
        lemma_present_contains(init, v);
        let p = present_values(init);
        if extracted.contains(Some(v)) {
            let k = choose|k: int| 0 <= k < extracted.len() && extracted[k] == Some(v);
            if k < extracted.len() - 1 {
                assert(init[k] == Some(v));
                let m = choose|m: int| 0 <= m < p.len() && p[m] == v;
                match extracted.last() {
                    Some(w) => assert(p.push(w)[m] == v),
                    None => {},
                }
            } else {
                assert(p.push(v)[p.len() as int] == v);
            }
        }
        if present_values(extracted).contains(v) {
            let m = choose|m: int| 0 <= m < present_values(extracted).len()
                && present_values(extracted)[m] == v;
            match extracted.last() {
                Some(w) => {
                    if m < p.len() {
                        assert(p[m] == v);
                        let k = choose|k: int| 0 <= k < init.len() && init[k] == Some(v);
                        assert(extracted[k] == Some(v));
                    } else {
                        assert(w == v);
                        assert(extracted[extracted.len() - 1] == Some(v));
                    }
                },
                None => {
                    let k = choose|k: int| 0 <= k < init.len() && init[k] == Some(v);
                    assert(extracted[k] == Some(v));
                },
            }
        }
    }
}

} // verus!
