//! Text primitives: comparison, prefixes, trimming, letter case and decimal numbers.
use vstd::prelude::*;
use vstd::std_specs::iter::IteratorSpec;
use vstd::string::*;

verus! {

/// `String::push` appends the given character to the end of the string.
pub assume_specification[ std::string::String::push ](text: &mut std::string::String, ch: char)
    ensures
        final(text)@ == old(text)@.push(ch),
;

/// Whether two strings hold the same characters.
pub fn same(a: &str, b: &str) -> (equal: bool)
    ensures
        equal == (a@ == b@),
{
    let mut left = a.chars();
    let mut right = b.chars();
    let ghost mut seen: int = 0;
    loop
        invariant
            left.obeys_prophetic_iter_laws(),
            right.obeys_prophetic_iter_laws(),
            left.decrease() is Some,
            0 <= seen <= a@.len(),
            seen <= b@.len(),
            left.remaining() == a@.skip(seen),
            right.remaining() == b@.skip(seen),
            a@.take(seen) == b@.take(seen),
        decreases a@.len() - seen,
    {
        match (left.next(), right.next()) {
            (None, None) => {
                assert(a@ == a@.take(seen));
                assert(b@ == b@.take(seen));
                return true;
            },
            (Some(c), Some(d)) => {
                assert(a@.skip(seen)[0] == a@[seen]);
                assert(b@.skip(seen)[0] == b@[seen]);
                if c != d {
                    return false;
                }
                proof {
                    assert(a@.skip(seen).drop_first() == a@.skip(seen + 1));
                    assert(b@.skip(seen).drop_first() == b@.skip(seen + 1));
                    assert(a@.take(seen + 1) == a@.take(seen).push(a@[seen]));
                    assert(b@.take(seen + 1) == b@.take(seen).push(b@[seen]));
                    seen = seen + 1;
                }
            },
            _ => {
                return false;
            },
        }
    }
}

/// The characters of a string.
pub fn chars_of(s: &str) -> (chars: Vec<char>)
    ensures
        chars@ == s@,
{
    let mut chars: Vec<char> = Vec::new();
    for c in iter: s.chars()
        invariant
            iter.seq() == s@,
            chars@ == s@.take(iter.index() as int),
    {
        chars.push(c);
    }
    chars
}

/// `a` followed by `b`.
pub fn joined(a: &str, b: &str) -> (s: String)
    ensures
        s@ == a@ + b@,
{
    let mut s = a.to_string();
    s.append(b);
    s
}

/// What follows `prefix` in `s`, where `s` starts with it.
pub open spec fn stripped(s: Seq<char>, prefix: Seq<char>) -> Option<Seq<char>> {
    if prefix.is_prefix_of(s) {
        Some(s.skip(prefix.len() as int))
    } else {
        None
    }
}

/// The view of an optional string slice.
pub open spec fn str_view(s: Option<&str>) -> Option<Seq<char>> {
    match s {
        Some(s) => Some(s@),
        None => None,
    }
}

/// The view of an optional string.
pub open spec fn string_view(s: Option<String>) -> Option<Seq<char>> {
    match s {
        Some(s) => Some(s@),
        None => None,
    }
}

/// What follows `prefix` in `s`, where `s` starts with it.
pub fn strip_prefix<'a>(s: &'a str, prefix: &str) -> (rest: Option<&'a str>)
    ensures
        str_view(rest) == stripped(s@, prefix@),
{
    let total: usize = s.unicode_len();
    let head: usize = prefix.unicode_len();
    if head > total {
        return None;
    }
    if same(s.substring_char(0, head), prefix) {
        Some(s.substring_char(head, total))
    } else {
        None
    }
}

/// Whether `s` starts with `prefix`.
pub fn starts_with(s: &str, prefix: &str) -> (yes: bool)
    ensures
        yes == prefix@.is_prefix_of(s@),
{
    strip_prefix(s, prefix).is_some()
}

/// The characters with the Unicode property White_Space.
pub open spec fn is_white_space(c: char) -> bool {
    let code = c as u32;
    ||| 0x09 <= code <= 0x0d
    ||| code == 0x20
    ||| code == 0x85
    ||| code == 0xa0
    ||| code == 0x1680
    ||| 0x2000 <= code <= 0x200a
    ||| code == 0x2028
    ||| code == 0x2029
    ||| code == 0x202f
    ||| code == 0x205f
    ||| code == 0x3000
}

/// Whether `c` has the Unicode property White_Space.
pub fn white_space(c: char) -> (yes: bool)
    ensures
        yes == is_white_space(c),
{
    let code: u32 = c as u32;
    (0x09 <= code && code <= 0x0d) || code == 0x20 || code == 0x85 || code == 0xa0 || code == 0x1680
        || (0x2000 <= code && code <= 0x200a) || code == 0x2028 || code == 0x2029 || code == 0x202f
        || code == 0x205f || code == 0x3000
}

/// `s` without the white space at its start.
pub open spec fn trimmed_start(s: Seq<char>) -> Seq<char>
    decreases s.len(),
{
    if s.len() > 0 && is_white_space(s[0]) {
        trimmed_start(s.skip(1))
    } else {
        s
    }
}

/// `s` without the white space at its end.
pub open spec fn trimmed_end(s: Seq<char>) -> Seq<char>
    decreases s.len(),
{
    if s.len() > 0 && is_white_space(s.last()) {
        trimmed_end(s.drop_last())
    } else {
        s
    }
}

/// `s` without the white space around it.
pub open spec fn trimmed(s: Seq<char>) -> Seq<char> {
    trimmed_end(trimmed_start(s))
}

/// `s` without the white space around it.
pub fn trim(s: &str) -> (t: &str)
    ensures
        t@ == trimmed(s@),
{
    let chars = chars_of(s);
    let mut from: usize = 0;
    assert(s@.skip(0) == s@);
    while from < chars.len() && white_space(chars[from])
        invariant
            chars@ == s@,
            from <= chars.len(),
            trimmed_start(s@) == trimmed_start(s@.skip(from as int)),
        decreases chars.len() - from,
    {
        assert(s@.skip(from as int).skip(1) == s@.skip(from + 1));
        from = from + 1;
    }
    let ghost tail = s@.skip(from as int);
    assert(trimmed_start(s@) == tail);
    let mut to: usize = chars.len();
    assert(s@.subrange(from as int, to as int) == tail);
    while to > from && white_space(chars[to - 1])
        invariant
            chars@ == s@,
            from <= to <= chars.len(),
            tail == s@.skip(from as int),
            trimmed_end(tail) == trimmed_end(s@.subrange(from as int, to as int)),
        decreases to,
    {
        assert(s@.subrange(from as int, to as int).drop_last() == s@.subrange(from as int, to - 1));
        to = to - 1;
    }
    s.substring_char(from, to)
}

/// The lower case form of an ASCII letter; any other character is its own.
pub open spec fn lower_char(c: char) -> char {
    if 'A' <= c <= 'Z' {
        (c as u32 + 32) as char
    } else {
        c
    }
}

/// `s` with its ASCII letters in lower case.
pub open spec fn lowered(s: Seq<char>) -> Seq<char> {
    s.map_values(|c: char| lower_char(c))
}

/// `s` with its ASCII letters in lower case.
pub fn lower_ascii(s: &str) -> (lower: String)
    ensures
        lower@ == lowered(s@),
{
    let chars = chars_of(s);
    let mut lower = String::new();
    for i in 0..chars.len()
        invariant
            chars@ == s@,
            lower@ == lowered(s@.take(i as int)),
    {
        let c = chars[i];
        if 'A' <= c && c <= 'Z' {
            lower.push((c as u8 + 32) as char);
        } else {
            lower.push(c);
        }
        assert(lower@ =~= lowered(s@.take(i + 1)));
    }
    assert(s@.take(s@.len() as int) == s@);
    lower
}

/// The character of a decimal digit.
pub open spec fn digit(d: int) -> char {
    (48 + d) as char
}

/// The decimal form of `n`, without leading zeros.
pub open spec fn decimal(n: nat) -> Seq<char>
    decreases n,
{
    if n < 10 {
        seq![digit(n as int)]
    } else {
        decimal(n / 10).push(digit((n % 10) as int))
    }
}

/// The decimal form of `n`, filled with zeros on the left to at least `width` characters.
pub open spec fn zero_padded(n: nat, width: nat) -> Seq<char> {
    let text = decimal(n);
    if text.len() < width {
        Seq::new((width - text.len()) as nat, |i: int| '0') + text
    } else {
        text
    }
}

/// The decimal form of `n`.
pub fn decimal_text(n: u128) -> (text: String)
    ensures
        text@ == decimal(n as nat),
    decreases n,
{
    if n < 10 {
        let mut text = String::new();
        text.push((48 + n as u8) as char);
        assert(text@ =~= decimal(n as nat));
        text
    } else {
        let mut text = decimal_text(n / 10);
        text.push((48 + (n % 10) as u8) as char);
        text
    }
}

/// Zeros on the left of a number, up to at least `width` characters.
fn padded(number: String, width: usize) -> (text: String)
    ensures
        text@ == (if number@.len() < width {
            Seq::new((width - number@.len()) as nat, |i: int| '0') + number@
        } else {
            number@
        }),
{
    let len: usize = number.as_str().unicode_len();
    let mut text = String::new();
    if len < width {
        for i in 0..width - len
            invariant
                text@ == Seq::new(i as nat, |j: int| '0'),
        {
            text.push('0');
            assert(text@ =~= Seq::new((i + 1) as nat, |j: int| '0'));
        }
        assert(text@ == Seq::new((width - len) as nat, |j: int| '0'));
    } else {
        assert(text@ + number@ == number@);
    }
    text.append(number.as_str());
    text
}

/// The decimal form of `n`, filled with zeros on the left to at least `width` characters.
pub fn zero_padded_text(n: u128, width: usize) -> (text: String)
    ensures
        text@ == zero_padded(n as nat, width as nat),
{
    padded(decimal_text(n), width)
}

/// Why a text is not an unsigned number.
#[derive(Debug, Clone, Copy, PartialEq, Eq, Structural)]
pub enum IntError {
    Empty,
    InvalidDigit,
    TooLarge,
}

/// The decimal digits.
pub open spec fn is_digit(c: char) -> bool {
    '0' <= c <= '9'
}

/// The number written by a sequence of digits.
pub open spec fn digits_value(s: Seq<char>) -> nat
    decreases s.len(),
{
    if s.len() == 0 {
        0
    } else {
        (10 * digits_value(s.drop_last()) + (s.last() as int - 48)) as nat
    }
}

/// How many digits `s` starts with.
pub open spec fn digit_run(s: Seq<char>) -> nat
    decreases s.len(),
{
    if s.len() > 0 && is_digit(s[0]) {
        1 + digit_run(s.skip(1))
    } else {
        0
    }
}

/// What `s` says as an unsigned number that is at most `max`: an optional plus sign and then
/// digits only. The leftmost fault decides the error.
pub open spec fn parsed_unsigned(s: Seq<char>, max: nat) -> Result<nat, IntError> {
    if s.len() == 0 {
        Err(IntError::Empty)
    } else {
        let body = if s[0] == '+' {
            s.skip(1)
        } else {
            s
        };
        let run = body.take(digit_run(body) as int);
        if digits_value(run) > max {
            Err(IntError::TooLarge)
        } else if run.len() < body.len() || body.len() == 0 {
            Err(IntError::InvalidDigit)
        } else {
            Ok(digits_value(run))
        }
    }
}

/// A run of digits is not longer than the text, and holds digits only.
pub proof fn lemma_digit_run(s: Seq<char>)
    ensures
        digit_run(s) <= s.len(),
        forall|i: int| 0 <= i < digit_run(s) ==> is_digit(#[trigger] s[i]),
    decreases s.len(),
{
    if s.len() > 0 && is_digit(s[0]) {
        lemma_digit_run(s.skip(1));
        assert forall|i: int| 0 <= i < digit_run(s) implies is_digit(#[trigger] s[i]) by {
            if i > 0 {
                assert(s[i] == s.skip(1)[i - 1]);
            }
        }
    }
}

/// A longer text of digits writes no smaller number.
proof fn lemma_digits_value_grows(s: Seq<char>, short: int, long: int)
    requires
        0 <= short <= long <= s.len(),
        forall|i: int| 0 <= i < long ==> is_digit(#[trigger] s[i]),
    ensures
        digits_value(s.take(short)) <= digits_value(s.take(long)),
    decreases long - short,
{
    if short < long {
        lemma_digits_value_grows(s, short, long - 1);
        assert(s.take(long).drop_last() == s.take(long - 1));
        assert(is_digit(s[long - 1]));
    }
}

/// What `s` says as an unsigned number that is at most `max`.
pub fn parse_unsigned(s: &str, max: u64) -> (number: Result<u64, IntError>)
    ensures
        match number {
            Ok(n) => parsed_unsigned(s@, max as nat) == Ok::<nat, IntError>(n as nat),
            Err(e) => parsed_unsigned(s@, max as nat) == Err::<nat, IntError>(e),
        },
{
    let chars = chars_of(s);
    if chars.len() == 0 {
        return Err(IntError::Empty);
    }
    let start: usize = if chars[0] == '+' { 1 } else { 0 };
    let ghost body = s@.skip(start as int);
    assert(start == 0 ==> body == s@);
    let mut number: u64 = 0;
    let mut i: usize = start;
    proof {
        lemma_digit_run(body);
        assert(body.skip(0) == body);
    }
    while i < chars.len()
        invariant
            chars@ == s@,
            chars.len() > 0,
            start <= i <= chars.len(),
            body == s@.skip(start as int),
            body == (if s@[0] == '+' { s@.skip(1) } else { s@ }),
            digit_run(body) == (i - start) + digit_run(body.skip(i - start)),
            digit_run(body) <= body.len(),
            forall|j: int| 0 <= j < digit_run(body) ==> is_digit(#[trigger] body[j]),
            number == digits_value(body.take(i - start)),
            number <= max,
        decreases chars.len() - i,
    {
        let c = chars[i];
        let ghost at = i - start;
        assert(body.skip(at)[0] == body[at] == c);
        if c < '0' || '9' < c {
            return Err(IntError::InvalidDigit);
        }
        let d: u64 = c as u64 - 48;
        assert(body.skip(at).skip(1) == body.skip(at + 1));
        assert(body.take(at + 1).drop_last() == body.take(at));
        assert(digits_value(body.take(at + 1)) == 10 * number + d);
        if d > max || number > (max - d) / 10 {
            proof {
                lemma_digits_value_grows(body, at + 1, digit_run(body) as int);
            }
            return Err(IntError::TooLarge);
        }
        number = number * 10 + d;
        i = i + 1;
    }
    proof {
        assert(body.take(i - start) == body);
        assert(body.skip(i - start).len() == 0);
    }
    if i == start {
        return Err(IntError::InvalidDigit);
    }
    Ok(number)
}

/// A text of digits is one run.
proof fn lemma_all_digits_run(s: Seq<char>)
    requires
        forall|i: int| 0 <= i < s.len() ==> is_digit(#[trigger] s[i]),
    ensures
        digit_run(s) == s.len(),
    decreases s.len(),
{
    if s.len() > 0 {
        assert forall|i: int| 0 <= i < s.skip(1).len() implies is_digit(#[trigger] s.skip(1)[i]) by {
            assert(s.skip(1)[i] == s[i + 1]);
        }
        lemma_all_digits_run(s.skip(1));
    }
}

/// The decimal form of a number holds digits only and writes that number.
proof fn lemma_decimal_value(n: nat)
    ensures
        decimal(n).len() > 0,
        forall|i: int| 0 <= i < decimal(n).len() ==> is_digit(#[trigger] decimal(n)[i]),
        digits_value(decimal(n)) == n,
    decreases n,
{
    if n < 10 {
        assert(decimal(n).drop_last() == Seq::<char>::empty());
        reveal_with_fuel(digits_value, 2);
    } else {
        lemma_decimal_value(n / 10);
        assert(decimal(n).drop_last() == decimal(n / 10));
    }
}

/// Zeros on the left do not change the number.
proof fn lemma_leading_zeros(count: nat, s: Seq<char>)
    ensures
        digits_value(Seq::new(count, |i: int| '0') + s) == digits_value(s),
    decreases count + s.len(),
{
    let zeros = Seq::new(count, |i: int| '0');
    let whole = zeros + s;
    if s.len() > 0 {
        lemma_leading_zeros(count, s.drop_last());
        assert(whole.drop_last() == zeros + s.drop_last());
    } else if count > 0 {
        let fewer = Seq::new((count - 1) as nat, |i: int| '0');
        lemma_leading_zeros((count - 1) as nat, s);
        assert(whole.drop_last() == fewer + s);
    } else {
        assert(whole == s);
    }
}

/// A zero-padded number ends in a digit.
pub proof fn zero_padded_ends_in_a_digit(n: nat, width: nat)
    ensures
        zero_padded(n, width).len() > 0,
        is_digit(zero_padded(n, width).last()),
{
    lemma_decimal_value(n);
    assert(zero_padded(n, width).last() == decimal(n).last());
}

/// A zero-padded number holds digits only and writes that number.
proof fn lemma_zero_padded_value(n: nat, width: nat)
    ensures
        zero_padded(n, width).len() > 0,
        forall|i: int|
            0 <= i < zero_padded(n, width).len() ==> is_digit(#[trigger] zero_padded(n, width)[i]),
        digits_value(zero_padded(n, width)) == n,
{
    let text = decimal(n);
    let whole = zero_padded(n, width);
    lemma_decimal_value(n);
    if text.len() < width {
        let zeros = Seq::new((width - text.len()) as nat, |i: int| '0');
        lemma_leading_zeros((width - text.len()) as nat, text);
        assert forall|i: int| 0 <= i < whole.len() implies is_digit(#[trigger] whole[i]) by {
            if i >= zeros.len() {
                assert(whole[i] == text[i - zeros.len()]);
            }
        }
    }
}

/// Reading a zero-padded number gives the number back.
pub proof fn zero_padded_reads_back(n: nat, width: nat, max: nat)
    requires
        n <= max,
    ensures
        parsed_unsigned(zero_padded(n, width), max) == Ok::<nat, IntError>(n),
{
    let whole = zero_padded(n, width);
    lemma_zero_padded_value(n, width);
    lemma_all_digits_run(whole);
    assert(is_digit(whole[0]));
    assert(whole.take(whole.len() as int) == whole);
}

// ---------------------------------------------------------------------
// Numbers of any size
// ---------------------------------------------------------------------

/// Whether a text holds digits only.
pub open spec fn all_digits(s: Seq<char>) -> bool {
    forall|i: int| 0 <= i < s.len() ==> is_digit(#[trigger] s[i])
}

/// The number that a text writes, whatever its size: an optional plus sign and then at least one
/// digit, and digits only.
pub open spec fn numeral(s: Seq<char>) -> Option<nat> {
    let body = if s.len() > 0 && s[0] == '+' {
        s.skip(1)
    } else {
        s
    };
    if body.len() > 0 && all_digits(body) {
        Some(digits_value(body))
    } else {
        None
    }
}

/// The digits of the number that a text writes.
pub fn numeral_digits(s: &str) -> (digits: Option<Vec<char>>)
    ensures
        match digits {
            Some(d) => all_digits(d@) && numeral(s@) == Some(digits_value(d@)),
            None => numeral(s@) is None,
        },
{
    let chars = chars_of(s);
    let start: usize = if chars.len() > 0 && chars[0] == '+' { 1 } else { 0 };
    let ghost body = s@.skip(start as int);
    assert(start == 0 ==> body == s@);
    if start == chars.len() {
        return None;
    }
    let mut digits: Vec<char> = Vec::new();
    for i in start..chars.len()
        invariant
            chars@ == s@,
            start <= chars.len(),
            body == s@.skip(start as int),
            body == (if s@.len() > 0 && s@[0] == '+' {
                s@.skip(1)
            } else {
                s@
            }),
            digits@ == body.take(i - start),
            all_digits(digits@),
    {
        let c = chars[i];
        assert(body[i - start] == c);
        if c < '0' || '9' < c {
            assert(!is_digit(body[i - start]));
            return None;
        }
        digits.push(c);
        assert(digits@ =~= body.take(i + 1 - start));
    }
    assert(digits@ =~= body);
    Some(digits)
}

/// Whether the number of one text of digits is at most that of another.
pub fn at_most(a: &Vec<char>, b: &Vec<char>) -> (yes: bool)
    requires
        all_digits(a@),
        all_digits(b@),
    ensures
        yes == (digits_value(a@) <= digits_value(b@)),
{
    let len: usize = if a.len() < b.len() {
        b.len()
    } else {
        a.len()
    };
    let gap_a: usize = len - a.len();
    let gap_b: usize = len - b.len();
    let mut less = false;
    let mut greater = false;
    let ghost mut of_a: nat = 0;
    let ghost mut of_b: nat = 0;
    for i in 0..len
        invariant
            all_digits(a@),
            all_digits(b@),
            gap_a == len - a.len(),
            gap_b == len - b.len(),
            of_a == digits_value(a@.take(if i < gap_a {
                0
            } else {
                i - gap_a
            })),
            of_b == digits_value(b@.take(if i < gap_b {
                0
            } else {
                i - gap_b
            })),
            less == (of_a < of_b),
            greater == (of_a > of_b),
    {
        let c = if i < gap_a { '0' } else { a[i - gap_a] };
        let d = if i < gap_b { '0' } else { b[i - gap_b] };
        proof {
            if i >= gap_a {
                assert(a@.take(i + 1 - gap_a).drop_last() == a@.take(i - gap_a));
            }
            if i >= gap_b {
                assert(b@.take(i + 1 - gap_b).drop_last() == b@.take(i - gap_b));
            }
            of_a = (10 * of_a + (c as int - 48)) as nat;
            of_b = (10 * of_b + (d as int - 48)) as nat;
        }
        if !less && !greater {
            less = c < d;
            greater = d < c;
        }
    }
    assert(a@.take(a@.len() as int) == a@);
    assert(b@.take(b@.len() as int) == b@);
    !greater
}

/// Nines at the end turn into zeros where the number before them counts up.
proof fn lemma_carry(low: Seq<char>, high: Seq<char>, count: nat)
    requires
        digits_value(high) == digits_value(low) + 1,
    ensures
        digits_value(high + Seq::new(count, |i: int| '0')) == digits_value(
            low + Seq::new(count, |i: int| '9'),
        ) + 1,
    decreases count,
{
    let zeros = Seq::new(count, |i: int| '0');
    let nines = Seq::new(count, |i: int| '9');
    if count > 0 {
        let fewer = (count - 1) as nat;
        lemma_carry(low, high, fewer);
        assert((high + zeros).drop_last() == high + Seq::new(fewer, |i: int| '0'));
        assert((low + nines).drop_last() == low + Seq::new(fewer, |i: int| '9'));
        assert((high + zeros).last() == '0');
        assert((low + nines).last() == '9');
    } else {
        assert(high + zeros == high);
        assert(low + nines == low);
    }
}

/// Adds one to the number of a text of digits.
pub fn count_up(digits: &mut Vec<char>)
    requires
        all_digits(old(digits)@),
    ensures
        all_digits(final(digits)@),
        digits_value(final(digits)@) == digits_value(old(digits)@) + 1,
{
    let ghost all = digits@;
    let total: usize = digits.len();
    let mut nines: usize = 0;
    assert(all =~= digits@ + Seq::new(0, |i: int| '9'));
    while digits.len() > 0 && digits[digits.len() - 1] == '9'
        invariant
            all_digits(digits@),
            nines + digits.len() == total,
            all == digits@ + Seq::new(nines as nat, |i: int| '9'),
        decreases digits.len(),
    {
        digits.pop();
        nines = nines + 1;
        assert(all =~= digits@ + Seq::new(nines as nat, |i: int| '9'));
    }
    let ghost low = digits@;
    match digits.pop() {
        Some(d) => {
            assert(is_digit(low.last()));
            digits.push((d as u8 + 1) as char);
            assert(digits@.drop_last() == low.drop_last());
        },
        None => {
            digits.push('1');
            assert(digits@.drop_last() == low);
        },
    }
    let ghost high = digits@;
    assert(digits_value(high) == digits_value(low) + 1);
    assert(high =~= high + Seq::new(0, |i: int| '0'));
    for k in 0..nines
        invariant
            all_digits(digits@),
            digits@ == high + Seq::new(k as nat, |i: int| '0'),
    {
        digits.push('0');
        assert(digits@ =~= high + Seq::new((k + 1) as nat, |i: int| '0'));
    }
    proof {
        lemma_carry(low, high, nines as nat);
    }
}

/// A text of digits that does not start with a zero is the decimal form of its number.
proof fn lemma_decimal_of_digits(s: Seq<char>)
    requires
        s.len() > 0,
        all_digits(s),
        s[0] != '0',
    ensures
        digits_value(s) > 0,
        decimal(digits_value(s)) == s,
    decreases s.len(),
{
    let rest = s.drop_last();
    let d = s.last() as int - 48;
    assert(is_digit(s[s.len() - 1]));
    if s.len() == 1 {
        assert(digits_value(rest) == 0);
        assert(decimal(digits_value(s)) =~= s);
    } else {
        lemma_decimal_of_digits(rest);
        let n = digits_value(s);
        assert(n == 10 * digits_value(rest) + d);
        assert(n / 10 == digits_value(rest));
        assert(n % 10 == d);
        assert(digit(d) == s.last());
        assert(s =~= rest.push(s.last()));
    }
}

/// The decimal form of the number of a text of digits, filled with zeros on the left to at least
/// `width` characters.
pub fn padded_digits(digits: &Vec<char>, width: usize) -> (text: String)
    requires
        all_digits(digits@),
        digits_value(digits@) > 0,
    ensures
        text@ == zero_padded(digits_value(digits@), width as nat),
{
    let mut from: usize = 0;
    assert(digits@.skip(0) == digits@);
    while from < digits.len() && digits[from] == '0'
        invariant
            from <= digits.len(),
            all_digits(digits@),
            digits_value(digits@.skip(from as int)) == digits_value(digits@),
        decreases digits.len() - from,
    {
        proof {
            let tail = digits@.skip(from + 1);
            lemma_leading_zeros(1, tail);
            assert(Seq::new(1, |i: int| '0') + tail =~= digits@.skip(from as int));
        }
        from = from + 1;
    }
    let ghost tail = digits@.skip(from as int);
    let mut number = String::new();
    for i in from..digits.len()
        invariant
            from <= digits.len(),
            tail == digits@.skip(from as int),
            number@ == tail.take(i - from),
    {
        number.push(digits[i]);
        assert(number@ =~= tail.take(i + 1 - from));
    }
    proof {
        assert(number@ =~= tail);
        assert forall|i: int| 0 <= i < tail.len() implies is_digit(#[trigger] tail[i]) by {
            assert(tail[i] == digits@[i + from]);
        }
        lemma_decimal_of_digits(tail);
    }
    padded(number, width)
}

/// A zero-padded number is read as that number.
pub proof fn zero_padded_is_a_numeral(n: nat, width: nat)
    ensures
        numeral(zero_padded(n, width)) == Some(n),
{
    lemma_zero_padded_value(n, width);
    assert(is_digit(zero_padded(n, width)[0]));
}

} // verus!
