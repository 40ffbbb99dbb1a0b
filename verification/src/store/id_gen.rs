//! Sequential task ids: a prefix and the highest number in use plus one, zero-padded.
use crate::text::{
    all_digits, at_most, count_up, digits_value, joined, numeral, numeral_digits, padded_digits,
    strip_prefix, stripped, zero_padded, zero_padded_is_a_numeral,
};
use vstd::prelude::*;

verus! {

/// The characters of each string.
pub open spec fn texts(strings: Seq<&str>) -> Seq<Seq<char>> {
    strings.map_values(|s: &str| s@)
}

/// The number of an id: what follows the prefix, where that is a number in decimal digits.
pub open spec fn id_number(id: Seq<char>, prefix: Seq<char>) -> Option<nat> {
    match stripped(id, prefix) {
        Some(suffix) => numeral(suffix),
        None => None,
    }
}

/// The highest number among the ids; ids without a number are ignored.
pub open spec fn highest_number(ids: Seq<Seq<char>>, prefix: Seq<char>) -> Option<nat>
    decreases ids.len(),
{
    if ids.len() == 0 {
        None
    } else {
        let before = highest_number(ids.drop_last(), prefix);
        match (before, id_number(ids.last(), prefix)) {
            (Some(a), Some(b)) => Some(if a >= b {
                a
            } else {
                b
            }),
            (Some(a), None) => Some(a),
            (None, b) => b,
        }
    }
}

/// The number after the highest one; the first is 1.
pub open spec fn next_number(ids: Seq<Seq<char>>, prefix: Seq<char>) -> nat {
    match highest_number(ids, prefix) {
        None => 1,
        Some(n) => n + 1,
    }
}

/// The id that follows the given ones.
pub open spec fn next_id(ids: Seq<Seq<char>>, prefix: Seq<char>, pad: nat) -> Seq<char> {
    prefix + zero_padded(next_number(ids, prefix), pad)
}

/// The next sequential id for the ids in use, the prefix and the zero-pad width: the highest
/// number plus one, whatever its size.
///
/// Ids that do not start with `prefix`, or whose suffix is not a number in decimal digits, are
/// ignored.
pub fn next_sequential_id(existing: &[&str], prefix: &str, pad: usize) -> (id: String)
    ensures
        id@ == next_id(texts(existing@), prefix@, pad as nat),
{
    let mut highest: Option<Vec<char>> = None;
    let ghost ids = texts(existing@);
    for i in 0..existing.len()
        invariant
            ids == texts(existing@),
            match highest {
                Some(digits) => all_digits(digits@) && highest_number(
                    ids.take(i as int),
                    prefix@,
                ) == Some(digits_value(digits@)),
                None => highest_number(ids.take(i as int), prefix@) is None,
            },
    {
        assert(ids.take(i + 1).drop_last() == ids.take(i as int));
        assert(ids.take(i + 1).last() == existing@[i as int]@);
        if let Some(suffix) = strip_prefix(existing[i], prefix) {
            if let Some(digits) = numeral_digits(suffix) {
                let higher = match &highest {
                    Some(so_far) => !at_most(&digits, so_far),
                    None => true,
                };
                if higher {
                    highest = Some(digits);
                }
            }
        }
    }
    assert(ids.take(ids.len() as int) == ids);
    let mut next: Vec<char> = match highest {
        Some(digits) => digits,
        None => Vec::new(),
    };
    count_up(&mut next);
    joined(prefix, padded_digits(&next, pad).as_str())
}

/// No id in use has a number above the highest one.
proof fn lemma_highest_bounds(ids: Seq<Seq<char>>, prefix: Seq<char>, i: int)
    requires
        0 <= i < ids.len(),
        id_number(ids[i], prefix) is Some,
    ensures
        highest_number(ids, prefix) is Some,
        id_number(ids[i], prefix)->0 <= highest_number(ids, prefix)->0,
    decreases ids.len(),
{
    if i < ids.len() - 1 {
        assert(ids.drop_last()[i] == ids[i]);
        lemma_highest_bounds(ids.drop_last(), prefix, i);
    }
}

/// The next id carries the next number, whatever the prefix and the pad width.
pub proof fn next_id_carries_next_number(ids: Seq<Seq<char>>, prefix: Seq<char>, pad: nat)
    ensures
        id_number(next_id(ids, prefix, pad), prefix) == Some(next_number(ids, prefix)),
{
    let number = next_number(ids, prefix);
    let id = next_id(ids, prefix, pad);
    zero_padded_is_a_numeral(number, pad);
    assert(id.subrange(0, prefix.len() as int) == prefix);
    assert(id.skip(prefix.len() as int) == zero_padded(number, pad));
}

/// The next id is not in use.
pub proof fn next_id_is_fresh(ids: Seq<Seq<char>>, prefix: Seq<char>, pad: nat)
    ensures
        !ids.contains(next_id(ids, prefix, pad)),
{
    let id = next_id(ids, prefix, pad);
    next_id_carries_next_number(ids, prefix, pad);
    if ids.contains(id) {
        let i = choose|i: int| 0 <= i < ids.len() && ids[i] == id;
        lemma_highest_bounds(ids, prefix, i);
    }
}

/// Taking the next id into use makes its number the highest, so ids count up one by one.
pub proof fn ids_count_up(ids: Seq<Seq<char>>, prefix: Seq<char>, pad: nat)
    ensures
        highest_number(ids.push(next_id(ids, prefix, pad)), prefix) == Some(
            next_number(ids, prefix),
        ),
{
    let id = next_id(ids, prefix, pad);
    next_id_carries_next_number(ids, prefix, pad);
    assert(ids.push(id).drop_last() == ids);
}

/// The highest number is that of an id in use.
proof fn lemma_highest_is_in_use(ids: Seq<Seq<char>>, prefix: Seq<char>) -> (i: int)
    requires
        highest_number(ids, prefix) is Some,
    ensures
        0 <= i < ids.len(),
        id_number(ids[i], prefix) == highest_number(ids, prefix),
    decreases ids.len(),
{
    if highest_number(ids, prefix) == id_number(ids.last(), prefix) {
        ids.len() - 1
    } else {
        lemma_highest_is_in_use(ids.drop_last(), prefix)
    }
}

/// Whether every id with a number that is among the ones is among the others.
pub open spec fn numbered_among(
    ones: Seq<Seq<char>>,
    others: Seq<Seq<char>>,
    prefix: Seq<char>,
) -> bool {
    forall|id: Seq<char>| #[trigger]
        ones.contains(id) && id_number(id, prefix) is Some ==> others.contains(id)
}

proof fn lemma_highest_grows(ones: Seq<Seq<char>>, others: Seq<Seq<char>>, prefix: Seq<char>)
    requires
        numbered_among(ones, others, prefix),
    ensures
        highest_number(ones, prefix) matches Some(n) ==> (highest_number(
            others,
            prefix,
        ) matches Some(m) && n <= m),
{
    if highest_number(ones, prefix) is Some {
        let i = lemma_highest_is_in_use(ones, prefix);
        assert(ones.contains(ones[i]));
        let j = choose|j: int| 0 <= j < others.len() && others[j] == ones[i];
        lemma_highest_bounds(others, prefix, j);
    }
}

/// The next id goes by the ids with a number alone, and by which there are: their order, repeated
/// ids, and ids that lack the prefix or whose suffix is no number play no part.
pub proof fn next_id_ignores_order_and_foreign_ids(
    one: Seq<Seq<char>>,
    two: Seq<Seq<char>>,
    prefix: Seq<char>,
    pad: nat,
)
    requires
        forall|id: Seq<char>| #[trigger]
            id_number(id, prefix) is Some ==> one.contains(id) == two.contains(id),
    ensures
        next_id(one, prefix, pad) == next_id(two, prefix, pad),
{
    lemma_highest_grows(one, two, prefix);
    lemma_highest_grows(two, one, prefix);
}

} // verus!
