//! Counting how often each generated number came back, and picking out the
//! numbers that came back more than once.

use std::collections::HashMap;
use vstd::prelude::*;

verus! {

broadcast use vstd::std_specs::hash::group_hash_axioms;

/// How many times `value` occurs in `values`.
pub open spec fn occurrences(values: Seq<u64>, value: u64) -> nat
    decreases values.len(),
{
    if values.len() == 0 {
        0
    } else {
        occurrences(values.drop_last(), value) + if values.last() == value {
            1nat
        } else {
            0nat
        }
    }
}

/// The frequency table of `values`: each value that occurs, with its number of occurrences.
pub open spec fn frequencies(values: Seq<u64>) -> Map<u64, int> {
    Map::new(|v: u64| values.contains(v), |v: u64| occurrences(values, v) as int)
}

/// A table with `i32` counters, read as a table of integers.
pub open spec fn counts_of_i32(table: Map<u64, i32>) -> Map<u64, int> {
    Map::new(|k: u64| table.contains_key(k), |k: u64| table[k] as int)
}

/// A table with `u32` counters, read as a table of integers.
pub open spec fn counts_of_u32(table: Map<u64, u32>) -> Map<u64, int> {
    Map::new(|k: u64| table.contains_key(k), |k: u64| table[k] as int)
}

/// Every element is smaller than every element after it.
pub open spec fn strictly_increasing(s: Seq<u64>) -> bool {
    forall|i: int, j: int| 0 <= i < j < s.len() ==> s[i] < s[j]
}

/// `listed` is the ascending list of the keys of `counts` whose count exceeds one.
pub open spec fn lists_repeated(listed: Seq<u64>, counts: Map<u64, int>) -> bool {
    &&& strictly_increasing(listed)
    &&& forall|k: u64| #[trigger]
        listed.contains(k) <==> (counts.contains_key(k) && counts[k] > 1)
}

proof fn lemma_occurrences_bounded(values: Seq<u64>, value: u64)
    ensures
        occurrences(values, value) <= values.len(),
        occurrences(values, value) > 0 <==> values.contains(value),
    decreases values.len(),
{
    if values.len() > 0 {
        let init = values.drop_last();
        lemma_occurrences_bounded(init, value);
        if values.contains(value) && values.last() != value {
            let i = choose|i: int| 0 <= i < values.len() && values[i] == value;
            assert(init[i] == value);
        }
        if init.contains(value) {
            let i = choose|i: int| 0 <= i < init.len() && init[i] == value;
            assert(values[i] == value);
        }
        if values.last() == value {
            assert(values[values.len() - 1] == value);
        }
    }
}

proof fn lemma_frequencies_push(values: Seq<u64>, x: u64)
    ensures
        frequencies(values.push(x)) =~= frequencies(values).insert(
            x,
            if frequencies(values).contains_key(x) {
                frequencies(values)[x] + 1
            } else {
                1
            },
        ),
{
    let longer = values.push(x);
    assert(longer.drop_last() =~= values);
    lemma_occurrences_bounded(values, x);
    assert forall|v: u64| longer.contains(v) <==> (values.contains(v) || v == x) by {
        if longer.contains(v) && v != x {
            let i = choose|i: int| 0 <= i < longer.len() && longer[i] == v;
            assert(values[i] == v);
        }
        if values.contains(v) {
            let i = choose|i: int| 0 <= i < values.len() && values[i] == v;
            assert(longer[i] == v);
        }
        if v == x {
            assert(longer[values.len() as int] == v);
        }
    }
}

/// Adds one occurrence of `value` to the table.
pub fn record_value(counts: &mut HashMap<u64, i32>, value: u64)
    requires
        old(counts)@.contains_key(value) ==> old(counts)@[value] < i32::MAX,
    ensures
        final(counts)@ == old(counts)@.insert(
            value,
            if old(counts)@.contains_key(value) {
                (old(counts)@[value] + 1) as i32
            } else {
                1i32
            },
        ),
{
    let current: i32 = match counts.get(&value) {
        Some(c) => *c,
        None => 0,
    };
    counts.insert(value, current + 1);
}

/// Adds one occurrence of `value` to a table with `u32` counters.
pub fn record_value_u32(counts: &mut HashMap<u64, u32>, value: u64)
    requires
        old(counts)@.contains_key(value) ==> old(counts)@[value] < u32::MAX,
    ensures
        final(counts)@ == old(counts)@.insert(
            value,
            if old(counts)@.contains_key(value) {
                (old(counts)@[value] + 1) as u32
            } else {
                1u32
            },
        ),
{
    let current: u32 = match counts.get(&value) {
        Some(c) => *c,
        None => 0,
    };
    counts.insert(value, current + 1);
}

/// Counts how often each value occurs.
pub fn tally(values: &Vec<u64>) -> (counts: HashMap<u64, i32>)
    requires
        values.len() <= i32::MAX,
    ensures
        counts_of_i32(counts@) == frequencies(values@),
{
    let mut counts: HashMap<u64, i32> = HashMap::new();
    let mut i: usize = 0;
    assert(values@.take(0) =~= Seq::<u64>::empty());
    assert(counts_of_i32(counts@) =~= frequencies(values@.take(0)));
    while i < values.len()
        invariant
            i <= values.len(),
            values.len() <= i32::MAX,
            counts_of_i32(counts@) == frequencies(values@.take(i as int)),
        decreases values.len() - i,
    {
        let v = values[i];
        let ghost before = values@.take(i as int);
        proof {
            lemma_occurrences_bounded(before, v);
            if counts@.contains_key(v) {
                assert(counts_of_i32(counts@).contains_key(v));
                assert(counts_of_i32(counts@)[v] == counts@[v] as int);
                assert(frequencies(before).contains_key(v));
                assert(frequencies(before)[v] == occurrences(before, v) as int);
            }
        }
        record_value(&mut counts, v);
        proof {
            assert(values@.take(i + 1) =~= before.push(v));
            lemma_frequencies_push(before, v);
            assert(counts_of_i32(counts@) =~= frequencies(values@.take(i + 1)));
        }
        i += 1;
    }
    assert(values@.take(values.len() as int) =~= values@);
    counts
}

/// Counts how often each value occurs, with `u32` counters.
pub fn tally_u32(values: &Vec<u64>) -> (counts: HashMap<u64, u32>)
    requires
        values.len() <= u32::MAX,
    ensures
        counts_of_u32(counts@) == frequencies(values@),
{
    let mut counts: HashMap<u64, u32> = HashMap::new();
    let mut i: usize = 0;
    assert(values@.take(0) =~= Seq::<u64>::empty());
    assert(counts_of_u32(counts@) =~= frequencies(values@.take(0)));
    while i < values.len()
        invariant
            i <= values.len(),
            values.len() <= u32::MAX,
            counts_of_u32(counts@) == frequencies(values@.take(i as int)),
        decreases values.len() - i,
    {
        let v = values[i];
        let ghost before = values@.take(i as int);
        proof {
            lemma_occurrences_bounded(before, v);
            if counts@.contains_key(v) {
                assert(counts_of_u32(counts@).contains_key(v));
                assert(counts_of_u32(counts@)[v] == counts@[v] as int);
                assert(frequencies(before).contains_key(v));
                assert(frequencies(before)[v] == occurrences(before, v) as int);
            }
        }
        record_value_u32(&mut counts, v);
        proof {
            assert(values@.take(i + 1) =~= before.push(v));
            lemma_frequencies_push(before, v);
            assert(counts_of_u32(counts@) =~= frequencies(values@.take(i + 1)));
        }
        i += 1;
    }
    assert(values@.take(values.len() as int) =~= values@);
    counts
}

/// Inserts `key` into an ascending list, keeping it ascending and free of repeats.
pub(crate) fn insert_sorted(list: &mut Vec<u64>, key: u64)
    requires
        strictly_increasing(old(list)@),
    ensures
        strictly_increasing(final(list)@),
        forall|x: u64| #[trigger]
            final(list)@.contains(x) <==> (old(list)@.contains(x) || x == key),
{
    let mut i: usize = 0;
    while i < list.len() && list[i] < key
        invariant
            i <= list.len(),
            strictly_increasing(list@),
            forall|j: int| 0 <= j < i ==> list@[j] < key,
        decreases list.len() - i,
    {
        i += 1;
    }
    if i < list.len() && list[i] == key {
        return;
    }
    let ghost before = list@;
    list.insert(i, key);
    proof {
        assert(list@ =~= before.take(i as int).push(key) + before.skip(i as int));
        assert forall|a: int, b: int| 0 <= a < b < list@.len() implies list@[a] < list@[b] by {
            if b < i {
                assert(list@[a] == before[a] && list@[b] == before[b]);
            } else if b == i {
                assert(list@[a] == before[a]);
            } else if a < i {
                assert(list@[a] == before[a] && list@[b] == before[b - 1]);
                assert(before[i as int] >= key);
            } else if a == i {
                assert(list@[b] == before[b - 1]);
                assert(before[i as int] > key);
            } else {
                assert(list@[a] == before[a - 1] && list@[b] == before[b - 1]);
            }
        }
        assert forall|x: u64| #[trigger]
            list@.contains(x) <==> (before.contains(x) || x == key) by {
            if list@.contains(x) {
                let j = choose|j: int| 0 <= j < list@.len() && list@[j] == x;
                if j < i {
                    assert(before[j] == x);
                } else if j > i {
                    assert(before[j - 1] == x);
                }
            }
            if before.contains(x) {
                let j = choose|j: int| 0 <= j < before.len() && before[j] == x;
                if j < i {
                    assert(list@[j] == x);
                } else {
                    assert(list@[j + 1] == x);
                }
            }
            if x == key {
                assert(list@[i as int] == x);
            }
        }
    }
}

proof fn lemma_increasing_tail(s: Seq<u64>)
    requires
        strictly_increasing(s),
        s.len() > 0,
    ensures
        strictly_increasing(s.drop_first()),
        forall|x: u64| #[trigger]
            s.drop_first().contains(x) <==> (s.contains(x) && x != s[0]),
{
    let t = s.drop_first();
    assert forall|x: u64| #[trigger] t.contains(x) <==> (s.contains(x) && x != s[0]) by {
        if t.contains(x) {
            let j = choose|j: int| 0 <= j < t.len() && t[j] == x;
            assert(s[j + 1] == x);
        }
        if s.contains(x) && x != s[0] {
            let j = choose|j: int| 0 <= j < s.len() && s[j] == x;
            assert(j != 0);
            assert(t[j - 1] == x);
        }
    }
}

proof fn lemma_increasing_same_elements(a: Seq<u64>, b: Seq<u64>)
    requires
        strictly_increasing(a),
        strictly_increasing(b),
        forall|x: u64| #[trigger] a.contains(x) <==> b.contains(x),
    ensures
        a == b,
    decreases a.len(),
{
    if a.len() == 0 {
        if b.len() > 0 {
            assert(b.contains(b[0]));
            assert(a.contains(b[0]));
        }
        assert(a =~= b);
    } else {
        assert(a.contains(a[0]));
        assert(b.contains(a[0]));
        assert(b.len() > 0);
        assert(b.contains(b[0]));
        assert(a.contains(b[0]));
        let i = choose|i: int| 0 <= i < a.len() && a[i] == b[0];
        let j = choose|j: int| 0 <= j < b.len() && b[j] == a[0];
        assert(a[0] <= a[i]);
        assert(b[0] <= b[j]);
        assert(a[0] == b[0]);
        lemma_increasing_tail(a);
        lemma_increasing_tail(b);
        lemma_increasing_same_elements(a.drop_first(), b.drop_first());
        assert(a =~= seq![a[0]] + a.drop_first());
        assert(b =~= seq![b[0]] + b.drop_first());
    }
}

/// For one table there is exactly one list of its repeated keys: whatever order
/// the table is walked in, the answer is the same.
pub proof fn repeated_list_is_unique(counts: Map<u64, int>, first: Seq<u64>, second: Seq<u64>)
    requires
        lists_repeated(first, counts),
        lists_repeated(second, counts),
    ensures
        first == second,
{
    lemma_increasing_same_elements(first, second);
}

/// Tallying a run of values and then listing the repeated keys reports, in
/// ascending order, exactly the values that occur at least twice in the run.
pub proof fn repeated_values_are_reported(values: Seq<u64>, listed: Seq<u64>)
    requires
        lists_repeated(listed, frequencies(values)),
    ensures
        strictly_increasing(listed),
        forall|v: u64| #[trigger] listed.contains(v) <==> occurrences(values, v) >= 2,
{
    assert forall|v: u64| #[trigger] listed.contains(v) <==> occurrences(values, v) >= 2 by {
        lemma_occurrences_bounded(values, v);
    }
}

proof fn lemma_occurrences_drop_last(values: Seq<u64>, v: u64)
    requires
        values.len() > 0,
    ensures
        occurrences(values.drop_last(), v) <= occurrences(values, v),
        values.last() == v ==> occurrences(values.drop_last(), v) + 1 == occurrences(values, v),
{
}

/// A run whose values all lie in `allowed` and never repeat is no longer than `allowed`.
proof fn lemma_distinct_run_fits(values: Seq<u64>, allowed: Seq<u64>)
    requires
        forall|i: int| 0 <= i < values.len() ==> allowed.contains(#[trigger] values[i]),
        forall|v: u64| #[trigger] occurrences(values, v) <= 1,
    ensures
        values.len() <= allowed.len(),
    decreases values.len(),
{
    if values.len() > 0 {
        let x = values.last();
        let rest = values.drop_last();
        assert(values[values.len() - 1] == x);
        let j = choose|j: int| 0 <= j < allowed.len() && allowed[j] == x;
        let fewer = allowed.remove(j);
        lemma_occurrences_drop_last(values, x);
        lemma_occurrences_bounded(rest, x);
        assert forall|i: int| 0 <= i < rest.len() implies fewer.contains(#[trigger] rest[i]) by {
            let y = rest[i];
            assert(values[i] == y);
            assert(allowed.contains(y));
            if y == x {
                assert(rest.contains(x));
            }
            let k = choose|k: int| 0 <= k < allowed.len() && allowed[k] == y;
            if k < j {
                assert(fewer[k] == y);
            } else {
                assert(k != j);
                assert(fewer[k - 1] == y);
            }
        }
        assert forall|v: u64| #[trigger] occurrences(rest, v) <= 1 by {
            lemma_occurrences_drop_last(values, v);
            assert(occurrences(values, v) <= 1);
        }
        lemma_distinct_run_fits(rest, fewer);
    }
}

/// Among twelve or more numbers between 0 and 10, some number occurs at least
/// twice, so the list of repeated numbers is not empty.
pub proof fn small_values_repeat(values: Seq<u64>, listed: Seq<u64>)
    requires
        values.len() >= 12,
        forall|i: int| 0 <= i < values.len() ==> #[trigger] values[i] <= 10,
        lists_repeated(listed, frequencies(values)),
    ensures
        exists|v: u64| #[trigger] occurrences(values, v) >= 2,
        listed.len() > 0,
{
    let allowed = Seq::new(11, |i: int| i as u64);
    if forall|v: u64| #[trigger] occurrences(values, v) <= 1 {
        assert forall|i: int| 0 <= i < values.len() implies allowed.contains(#[trigger] values[i]) by {
            assert(allowed[values[i] as int] == values[i]);
        }
        lemma_distinct_run_fits(values, allowed);
        assert(false);
    }
    let v = choose|v: u64| occurrences(values, v) >= 2;
    repeated_values_are_reported(values, listed);
    assert(listed.contains(v));
}

} // verus!
