//! Settings, told from the text that they are given as.
use crate::config::{int_error_text, pad_setting, setting};
use crate::laws::ids::{digits_are_read_in_base_ten, written_number};
use crate::text::{digit_run, digits_value, parsed_unsigned, IntError};
use vstd::prelude::*;

verus! {

/// Whether a text has digits only, and at least one.
pub open spec fn is_number(s: Seq<char>) -> bool {
    s.len() > 0 && forall|i: int| 0 <= i < s.len() ==> '0' <= #[trigger] s[i] <= '9'
}

proof fn lemma_run_ends(s: Seq<char>, n: int)
    requires
        0 <= n <= s.len(),
        forall|i: int| 0 <= i < n ==> '0' <= #[trigger] s[i] <= '9',
        n < s.len() ==> !('0' <= s[n] <= '9'),
    ensures
        digit_run(s) == n,
    decreases s.len(),
{
    if n > 0 {
        assert('0' <= s[0] <= '9');
        assert forall|i: int| 0 <= i < n - 1 implies '0' <= #[trigger] s.skip(1)[i] <= '9' by {
            assert(s.skip(1)[i] == s[i + 1]);
        }
        if n < s.len() {
            assert(s.skip(1)[n - 1] == s[n]);
        }
        lemma_run_ends(s.skip(1), n - 1);
    }
}

/// Digits are read as the number that they write, with a plus sign before them or without, up to
/// the greatest number that fits; above it they are too large. No text at all, and a plus sign
/// alone, are no number.
pub proof fn numbers_are_read_from_digits(digits: Seq<char>, max: nat)
    requires
        is_number(digits),
    ensures
        written_number(digits) <= max ==> parsed_unsigned(digits, max) == Ok::<nat, IntError>(
            written_number(digits) as nat,
        ),
        written_number(digits) <= max ==> parsed_unsigned(seq!['+'] + digits, max) == Ok::<
            nat,
            IntError,
        >(written_number(digits) as nat),
        written_number(digits) > max ==> parsed_unsigned(digits, max) == Err::<nat, IntError>(
            IntError::TooLarge,
        ),
        parsed_unsigned(Seq::empty(), max) == Err::<nat, IntError>(IntError::Empty),
        parsed_unsigned(seq!['+'], max) == Err::<nat, IntError>(IntError::InvalidDigit),
{
    digits_are_read_in_base_ten(digits);
    lemma_run_ends(digits, digits.len() as int);
    assert(digits.take(digits.len() as int) =~= digits);
    assert('0' <= digits[0] <= '9');
    let signed = seq!['+'] + digits;
    assert(signed.skip(1) =~= digits);
    let sign = seq!['+'];
    assert(sign.skip(1) =~= Seq::empty());
    lemma_run_ends(sign.skip(1), 0);
    assert(sign.skip(1).take(0) =~= Seq::empty());
    assert(digits_value(Seq::empty()) == 0);
}

/// A text with something else behind its first digits is no number: the digits before it decide
/// whether it is too large, and otherwise it is the digit that is invalid.
pub proof fn other_characters_are_refused(s: Seq<char>, n: int, max: nat)
    requires
        0 <= n < s.len(),
        forall|i: int| 0 <= i < n ==> '0' <= #[trigger] s[i] <= '9',
        !('0' <= s[n] <= '9'),
        n == 0 ==> s[n] != '+',
    ensures
        written_number(s.take(n)) <= max ==> parsed_unsigned(s, max) == Err::<nat, IntError>(
            IntError::InvalidDigit,
        ),
        written_number(s.take(n)) > max ==> parsed_unsigned(s, max) == Err::<nat, IntError>(
            IntError::TooLarge,
        ),
{
    assert(s[0] != '+') by {
        if n > 0 {
            assert('0' <= s[0] <= '9');
        }
    }
    lemma_run_ends(s, n);
    assert forall|i: int| 0 <= i < s.take(n).len() implies '0' <= #[trigger] s.take(n)[i] <= '9' by {
        assert(s.take(n)[i] == s[i]);
    }
    digits_are_read_in_base_ten(s.take(n));
}

/// A setting that is given counts unless it is empty; the pad width is three where it does not
/// count, and otherwise the number that the setting writes.
pub proof fn empty_settings_do_not_count(given: Seq<char>)
    ensures
        setting(None) is None,
        setting(Some(Seq::empty())) is None,
        given.len() > 0 ==> setting(Some(given)) == Some(given),
        pad_setting(None) == Ok::<nat, IntError>(3),
        pad_setting(Some(Seq::empty())) == Ok::<nat, IntError>(3),
        is_number(given) && written_number(given) <= usize::MAX ==> pad_setting(Some(given)) == Ok::<
            nat,
            IntError,
        >(written_number(given) as nat),
        given.len() > 0 && parsed_unsigned(given, usize::MAX as nat) is Err ==> pad_setting(
            Some(given),
        ) is Err,
        int_error_text(IntError::Empty) == "cannot parse integer from empty string"@,
        int_error_text(IntError::InvalidDigit) == "invalid digit found in string"@,
        int_error_text(IntError::TooLarge) == "number too large to fit in target type"@,
{
    if is_number(given) {
        numbers_are_read_from_digits(given, usize::MAX as nat);
    }
}

} // verus!
