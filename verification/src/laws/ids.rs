//! Sequential ids, told from the numbers of the ids in use.
use crate::store::id_gen::{highest_number, id_number, next_id};
use crate::text::{
    all_digits, decimal, digits_value, is_digit, zero_padded, zero_padded_is_a_numeral,
};
use vstd::prelude::*;

verus! {

/// The number that digits write in base ten: each counts ten times as much as the one behind it.
pub open spec fn written_number(digits: Seq<char>) -> int
    decreases digits.len(),
{
    if digits.len() == 0 {
        0
    } else {
        (digits[0] as int - '0' as int) * tens((digits.len() - 1) as nat) + written_number(
            digits.skip(1),
        )
    }
}

/// Ten times ten, so many times.
pub open spec fn tens(n: nat) -> int
    decreases n,
{
    if n == 0 {
        1
    } else {
        10 * tens((n - 1) as nat)
    }
}

proof fn lemma_written_number_grows(digits: Seq<char>, last: char)
    ensures
        written_number(digits.push(last)) == 10 * written_number(digits) + (last as int
            - '0' as int),
    decreases digits.len(),
{
    let all = digits.push(last);
    if digits.len() == 0 {
        assert(all.skip(1) =~= Seq::empty());
        assert(tens(0) == 1);
        assert(written_number(all.skip(1)) == 0);
        assert((all[0] as int - '0' as int) * 1 == last as int - '0' as int);
    } else {
        let head = digits[0] as int - '0' as int;
        let n = (digits.len() - 1) as nat;
        lemma_written_number_grows(digits.skip(1), last);
        assert(all.skip(1) =~= digits.skip(1).push(last));
        assert(tens(n + 1) == 10 * tens(n));
        assert(head * (10 * tens(n)) == 10 * (head * tens(n))) by (nonlinear_arith);
    }
}

/// Digits are read as the number that they write in base ten.
pub proof fn digits_are_read_in_base_ten(digits: Seq<char>)
    requires
        forall|i: int| 0 <= i < digits.len() ==> '0' <= #[trigger] digits[i] <= '9',
    ensures
        digits_value(digits) == written_number(digits),
    decreases digits.len(),
{
    if digits.len() > 0 {
        digits_are_read_in_base_ten(digits.drop_last());
        assert(digits.last() == digits[digits.len() - 1]);
        assert(digits.drop_last().push(digits.last()) =~= digits);
        lemma_written_number_grows(digits.drop_last(), digits.last());
    }
}

/// The prefix followed by digits is an id with the number that they write, with a plus sign before
/// them or without; no other id has a number.
pub proof fn ids_have_the_number_behind_the_prefix(
    id: Seq<char>,
    prefix: Seq<char>,
    suffix: Seq<char>,
)
    ensures
        suffix.len() > 0 && (forall|i: int|
            0 <= i < suffix.len() ==> '0' <= #[trigger] suffix[i] <= '9') ==> {
            &&& id_number(prefix + suffix, prefix) == Some(written_number(suffix) as nat)
            &&& id_number(prefix + (seq!['+'] + suffix), prefix) == Some(
                written_number(suffix) as nat,
            )
        },
        suffix.len() == 0 ==> id_number(prefix + suffix, prefix) is None,
        (exists|i: int|
            0 <= i < suffix.len() && !('0' <= #[trigger] suffix[i] <= '9') && !(i == 0 && suffix[i]
                == '+')) ==> id_number(prefix + suffix, prefix) is None,
        !prefix.is_prefix_of(id) ==> id_number(id, prefix) is None,
{
    let whole = prefix + suffix;
    assert(whole.subrange(0, prefix.len() as int) =~= prefix);
    assert(whole.skip(prefix.len() as int) =~= suffix);
    let signed = seq!['+'] + suffix;
    let other = prefix + signed;
    assert(other.subrange(0, prefix.len() as int) =~= prefix);
    assert(other.skip(prefix.len() as int) =~= signed);
    assert(signed.skip(1) =~= suffix);
    if suffix.len() > 0 && forall|i: int| 0 <= i < suffix.len() ==> '0' <= #[trigger] suffix[i] <= '9' {
        assert(suffix[0] != '+');
        assert(all_digits(suffix));
        digits_are_read_in_base_ten(suffix);
    }
    if exists|i: int|
        0 <= i < suffix.len() && !('0' <= #[trigger] suffix[i] <= '9') && !(i == 0 && suffix[i]
            == '+') {
        let i = choose|i: int|
            0 <= i < suffix.len() && !('0' <= #[trigger] suffix[i] <= '9') && !(i == 0 && suffix[i]
                == '+');
        if suffix[0] == '+' {
            assert(suffix.skip(1)[i - 1] == suffix[i]);
            assert(!is_digit(suffix.skip(1)[i - 1]));
        } else {
            assert(!is_digit(suffix[i]));
        }
    }
}

proof fn lemma_highest(ids: Seq<Seq<char>>, prefix: Seq<char>) -> (place: int)
    ensures
        forall|i: int|
            0 <= i < ids.len() ==> (id_number(#[trigger] ids[i], prefix) matches Some(n) ==> (
            highest_number(ids, prefix) matches Some(highest) && n <= highest)),
        highest_number(ids, prefix) is Some ==> 0 <= place < ids.len() && id_number(
            ids[place],
            prefix,
        ) == highest_number(ids, prefix),
    decreases ids.len(),
{
    if ids.len() == 0 {
        0
    } else {
        let before = lemma_highest(ids.drop_last(), prefix);
        assert forall|i: int| 0 <= i < ids.len() implies (id_number(
            #[trigger] ids[i],
            prefix,
        ) matches Some(n) ==> (highest_number(ids, prefix) matches Some(highest) && n
            <= highest)) by {
            if i < ids.len() - 1 {
                assert(ids.drop_last()[i] == ids[i]);
            }
        }
        if highest_number(ids, prefix) == id_number(ids.last(), prefix) {
            ids.len() - 1
        } else {
            before
        }
    }
}

/// The next id has the prefix, and then a number in digits that is one more than that of some id in
/// use and more than that of every one; where none has a number it is 1. The number is what this
/// function gives, with the place of the id that it follows.
pub proof fn next_ids_are_one_above_all_others(
    ids: Seq<Seq<char>>,
    prefix: Seq<char>,
    pad: nat,
) -> (next: (nat, int))
    ensures
        next_id(ids, prefix, pad) == prefix + zero_padded(next.0, pad),
        id_number(next_id(ids, prefix, pad), prefix) == Some(next.0),
        forall|i: int|
            0 <= i < ids.len() ==> (id_number(#[trigger] ids[i], prefix) matches Some(n) ==> n
                < next.0),
        next.0 == 1 && (forall|i: int|
            0 <= i < ids.len() ==> id_number(#[trigger] ids[i], prefix) is None) || (0 <= next.1
            < ids.len() && id_number(ids[next.1], prefix) == Some((next.0 - 1) as nat) && next.0
            >= 1),
{
    let place = lemma_highest(ids, prefix);
    let number = match highest_number(ids, prefix) {
        Some(n) => n + 1,
        None => 1,
    };
    let id = prefix + zero_padded(number, pad);
    zero_padded_is_a_numeral(number, pad);
    assert(id.subrange(0, prefix.len() as int) =~= prefix);
    assert(id.skip(prefix.len() as int) =~= zero_padded(number, pad));
    assert forall|i: int| 0 <= i < ids.len() && highest_number(ids, prefix) is None implies id_number(
        #[trigger] ids[i],
        prefix,
    ) is None by {}
    (number, place)
}

proof fn lemma_decimal(n: nat)
    ensures
        decimal(n).len() > 0,
        forall|i: int| 0 <= i < decimal(n).len() ==> '0' <= #[trigger] decimal(n)[i] <= '9',
        n > 0 ==> decimal(n)[0] != '0',
    decreases n,
{
    if n >= 10 {
        lemma_decimal(n / 10);
    }
}

/// A padded number has only digits, and at least as many as the width. It has more than one and a
/// zero in front only where it fills the width exactly, and it writes the number.
pub proof fn padding_fills_the_width_with_zeros(n: nat, width: nat)
    ensures
        forall|i: int|
            0 <= i < zero_padded(n, width).len() ==> '0' <= #[trigger] zero_padded(n, width)[i]
                <= '9',
        zero_padded(n, width).len() >= width,
        zero_padded(n, width).len() >= 1,
        n > 0 && zero_padded(n, width).len() > width ==> zero_padded(n, width)[0] != '0',
        written_number(zero_padded(n, width)) == n,
{
    lemma_decimal(n);
    zero_padded_is_a_numeral(n, width);
    let text = zero_padded(n, width);
    assert forall|i: int| 0 <= i < text.len() implies '0' <= #[trigger] text[i] <= '9' by {
        if decimal(n).len() < width && i >= width - decimal(n).len() {
            assert(text[i] == decimal(n)[i - (width - decimal(n).len())]);
        }
    }
    assert(text[0] != '+');
    digits_are_read_in_base_ten(text);
}

} // verus!
