//! The JSON text of the number service's answer.

use vstd::prelude::*;
use vstd::string::StringExecFns;

verus! {

/// `serde_json`'s error, carried through without being looked into.
#[verifier::external_type_specification]
#[verifier::external_body]
pub struct ExSerdeJsonError(serde_json::Error);

/// The decimal digit `d` as a character.
pub open spec fn digit_char(d: nat) -> char {
    (48 + d) as char
}

/// The decimal notation of `n`, without leading zeros.
pub open spec fn decimal(n: nat) -> Seq<char>
    decreases n,
{
    if n < 10 {
        seq![digit_char(n)]
    } else {
        decimal(n / 10).push(digit_char(n % 10))
    }
}

/// The numbers in decimal, separated by commas.
pub open spec fn comma_separated(values: Seq<u64>) -> Seq<char>
    decreases values.len(),
{
    if values.len() == 0 {
        Seq::empty()
    } else if values.len() == 1 {
        decimal(values[0] as nat)
    } else {
        comma_separated(values.drop_last()) + seq![','] + decimal(values.last() as nat)
    }
}

/// The compact JSON array of the numbers, such as `[1,3]`.
pub open spec fn json_number_array(values: Seq<u64>) -> Seq<char> {
    seq!['['] + comma_separated(values) + seq![']']
}

/// Calls `serde_json::to_string` on a list of numbers. serde_json writes a
/// sequence of integers into an in-memory buffer, which cannot fail, in its
/// compact form: `[`, the numbers in decimal separated by `,`, then `]`. The
/// contract claims that the call succeeds with that text.
#[verifier::external_body]
fn serialize_numbers(values: &Vec<u64>) -> (text: Result<String, serde_json::Error>)
    ensures
        text is Ok,
        text matches Ok(s) ==> s@ == json_number_array(values@),
{
    serde_json::to_string(values)
}

/// The answer body for a serialisation outcome: the JSON text, or an empty
/// array when serialisation failed.
pub fn body_from_serialized(serialized: Result<String, serde_json::Error>) -> (body: String)
    ensures
        match serialized {
            Ok(s) => body == s,
            Err(_) => body@ == "[]"@,
        },
{
    match serialized {
        Ok(s) => s,
        Err(_) => String::from_str("[]"),
    }
}

/// The answer body listing the given numbers as a JSON array.
pub fn response_body(frequent_numbers: &Vec<u64>) -> (body: String)
    ensures
        body@ == json_number_array(frequent_numbers@),
{
    body_from_serialized(serialize_numbers(frequent_numbers))
}

proof fn lemma_decimal_nonempty(n: nat)
    ensures
        decimal(n).len() >= 1,
    decreases n,
{
    if n >= 10 {
        lemma_decimal_nonempty(n / 10);
    }
}

/// The JSON array of at least one number is more than the two brackets, so it
/// is never the empty array `[]`.
pub proof fn array_of_numbers_is_not_empty(values: Seq<u64>)
    requires
        values.len() > 0,
    ensures
        json_number_array(values).len() > 2,
        json_number_array(values) != "[]"@,
{
    lemma_decimal_nonempty(values.last() as nat);
    if values.len() == 1 {
        lemma_decimal_nonempty(values[0] as nat);
    }
    reveal_strlit("[]");
}

/// The number that a string of decimal digits stands for.
pub open spec fn digits_value(digits: Seq<char>) -> int
    decreases digits.len(),
{
    if digits.len() == 0 {
        0
    } else {
        digits_value(digits.drop_last()) * 10 + (digits.last() as int - 48)
    }
}

/// The character is one of `0` to `9`.
pub open spec fn is_digit(c: char) -> bool {
    48 <= c as int <= 57
}

/// The decimal notation of a number is a nonempty run of digits that stands
/// for that number and starts with `0` only when the number is 0.
pub proof fn decimal_is_the_number_in_digits(n: nat)
    ensures
        decimal(n).len() >= 1,
        forall|i: int| 0 <= i < decimal(n).len() ==> is_digit(#[trigger] decimal(n)[i]),
        digits_value(decimal(n)) == n,
        n > 0 ==> decimal(n)[0] != '0',
    decreases n,
{
    if n < 10 {
        assert(decimal(n) == seq![digit_char(n)]);
        assert(digit_char(n) as int == 48 + n);
        assert(decimal(n).drop_last() =~= Seq::<char>::empty());
        assert(digits_value(Seq::<char>::empty()) == 0);
        assert(decimal(n).last() == digit_char(n));
        assert(digits_value(decimal(n)) == digits_value(decimal(n).drop_last()) * 10 + (
        decimal(n).last() as int - 48));
    } else {
        let q = n / 10;
        let r = n % 10;
        decimal_is_the_number_in_digits(q);
        let d = decimal(n);
        assert(d == decimal(q).push(digit_char(r)));
        assert(digit_char(r) as int == 48 + r);
        assert(d.drop_last() =~= decimal(q));
        assert(n == q * 10 + r);
        assert(d.last() == digit_char(r));
        assert(digits_value(d) == digits_value(d.drop_last()) * 10 + (d.last() as int - 48));
        assert forall|i: int| 0 <= i < d.len() implies is_digit(#[trigger] d[i]) by {
            if i < decimal(q).len() {
                assert(d[i] == decimal(q)[i]);
            }
        }
        assert(d[0] == decimal(q)[0]);
    }
}

/// The JSON array of no numbers is `[]`; appending a number to a list adds
/// `,` (when the list was not empty) and that number's decimal notation just
/// before the closing `]`, and leaves the rest of the text as it was.
pub proof fn json_array_grows_by_one_number(values: Seq<u64>, x: u64)
    ensures
        json_number_array(Seq::empty()) == seq!['[', ']'],
        values.len() == 0 ==> json_number_array(values.push(x)) == seq!['['] + decimal(
            x as nat,
        ) + seq![']'],
        values.len() > 0 ==> json_number_array(values.push(x)) == json_number_array(
            values,
        ).drop_last() + seq![','] + decimal(x as nat) + seq![']'],
{
    assert(json_number_array(Seq::empty()) =~= seq!['[', ']']);
    let longer = values.push(x);
    assert(longer.drop_last() =~= values);
    assert(longer.last() == x);
    if values.len() == 0 {
        assert(longer[0] == x);
        assert(json_number_array(longer) =~= seq!['['] + decimal(x as nat) + seq![']']);
    } else {
        assert(json_number_array(values).drop_last() =~= seq!['['] + comma_separated(values));
        assert(json_number_array(longer) =~= json_number_array(values).drop_last() + seq![',']
            + decimal(x as nat) + seq![']']);
    }
}

} // verus!
