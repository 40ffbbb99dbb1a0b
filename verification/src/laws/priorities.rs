//! Priorities and the text that they are read from.
use crate::methods::patch::canonical;
use crate::text::{is_white_space, lower_char, lowered, trimmed, trimmed_end, trimmed_start};
use vstd::prelude::*;
use vstd::string::*;

verus! {

/// A text without white space at either end stays as it is.
pub proof fn tight_text_is_trimmed(s: Seq<char>)
    requires
        s.len() > 0 ==> !is_white_space(s[0]) && !is_white_space(s.last()),
    ensures
        trimmed(s) == s,
{
}

proof fn lemma_trimmed_start(s: Seq<char>)
    ensures
        trimmed_start(s).len() > 0 ==> !is_white_space(trimmed_start(s)[0]),
    decreases s.len(),
{
    if s.len() > 0 && is_white_space(s[0]) {
        lemma_trimmed_start(s.skip(1));
    }
}

proof fn lemma_trimmed_end(s: Seq<char>)
    ensures
        trimmed_end(s).is_prefix_of(s),
        trimmed_end(s).len() > 0 ==> !is_white_space(trimmed_end(s).last()),
    decreases s.len(),
{
    if s.len() > 0 && is_white_space(s.last()) {
        lemma_trimmed_end(s.drop_last());
    }
}

/// No white space is left around a trimmed text, so trimming it again changes nothing.
pub proof fn trimming_is_stable(s: Seq<char>)
    ensures
        trimmed(s).len() > 0 ==> !is_white_space(trimmed(s)[0]) && !is_white_space(
            trimmed(s).last(),
        ),
        trimmed(trimmed(s)) == trimmed(s),
{
    lemma_trimmed_start(s);
    lemma_trimmed_end(trimmed_start(s));
}

/// A priority in canonical form is its own canonical form.
pub proof fn canonical_is_stable(raw: Seq<char>)
    ensures
        canonical(canonical(raw)) == canonical(raw),
{
    let plain = lowered(trimmed(raw));
    trimming_is_stable(raw);
    assert(forall|c: char| is_white_space(#[trigger] lower_char(c)) == is_white_space(c));
    tight_text_is_trimmed(plain);
    assert(lowered(plain) =~= plain);
    reveal_strlit("critical");
    reveal_strlit("high");
    reveal_strlit("medium");
    reveal_strlit("low");
    reveal_strlit("p0");
    reveal_strlit("p1");
    reveal_strlit("p2");
    reveal_strlit("p3");
    tight_text_is_trimmed("critical"@);
    tight_text_is_trimmed("high"@);
    tight_text_is_trimmed("medium"@);
    tight_text_is_trimmed("low"@);
    assert(lowered("critical"@) =~= "critical"@);
    assert(lowered("high"@) =~= "high"@);
    assert(lowered("medium"@) =~= "medium"@);
    assert(lowered("low"@) =~= "low"@);
}

/// White space around a priority and the case of its letters do not count.
pub proof fn canonical_ignores_case_and_space(raw: Seq<char>)
    ensures
        canonical(trimmed(raw)) == canonical(raw),
        canonical(lowered(trimmed(raw))) == canonical(raw),
{
    let plain = lowered(trimmed(raw));
    trimming_is_stable(raw);
    assert(forall|c: char| is_white_space(#[trigger] lower_char(c)) == is_white_space(c));
    tight_text_is_trimmed(plain);
    assert(lowered(plain) =~= plain);
}

/// `p0` to `p3` stand for the four known priorities, in any letter case and with white space around
/// them; any other priority stands for itself, trimmed and in lower case.
pub proof fn short_priorities_are_spelled_out(raw: Seq<char>)
    ensures
        lowered(trimmed(raw)) == "p0"@ ==> canonical(raw) == "critical"@,
        lowered(trimmed(raw)) == "p1"@ ==> canonical(raw) == "high"@,
        lowered(trimmed(raw)) == "p2"@ ==> canonical(raw) == "medium"@,
        lowered(trimmed(raw)) == "p3"@ ==> canonical(raw) == "low"@,
        lowered(trimmed(raw)) != "p0"@ && lowered(trimmed(raw)) != "p1"@ && lowered(trimmed(raw))
            != "p2"@ && lowered(trimmed(raw)) != "p3"@ ==> canonical(raw) == lowered(trimmed(raw)),
{
    reveal_strlit("p0");
    reveal_strlit("p1");
    reveal_strlit("p2");
    reveal_strlit("p3");
    assert("p0"@[1] != "p1"@[1] && "p0"@[1] != "p2"@[1] && "p0"@[1] != "p3"@[1]);
    assert("p1"@[1] != "p2"@[1] && "p1"@[1] != "p3"@[1] && "p2"@[1] != "p3"@[1]);
}

/// Lower case keeps the length, turns `A` to `Z` into `a` to `z`, and keeps every other character.
pub proof fn lower_case_is_that_of_ascii(s: Seq<char>, i: int)
    requires
        0 <= i < s.len(),
    ensures
        lowered(s).len() == s.len(),
        'A' <= s[i] <= 'Z' ==> lowered(s)[i] as int == s[i] as int - 'A' as int + 'a' as int,
        !('A' <= s[i] <= 'Z') ==> lowered(s)[i] == s[i],
{
}

proof fn lemma_start_cut(s: Seq<char>) -> (n: int)
    ensures
        0 <= n <= s.len(),
        trimmed_start(s) == s.skip(n),
        forall|i: int| 0 <= i < n ==> is_white_space(#[trigger] s[i]),
    decreases s.len(),
{
    if s.len() > 0 && is_white_space(s[0]) {
        let n = lemma_start_cut(s.skip(1));
        assert(s.skip(1).skip(n) =~= s.skip(n + 1));
        assert forall|i: int| 0 <= i < n + 1 implies is_white_space(#[trigger] s[i]) by {
            if i > 0 {
                assert(s.skip(1)[i - 1] == s[i]);
            }
        }
        n + 1
    } else {
        assert(s.skip(0) =~= s);
        0
    }
}

proof fn lemma_end_cut(s: Seq<char>) -> (n: int)
    ensures
        0 <= n <= s.len(),
        trimmed_end(s) == s.take(n),
        forall|i: int| n <= i < s.len() ==> is_white_space(#[trigger] s[i]),
    decreases s.len(),
{
    if s.len() > 0 && is_white_space(s.last()) {
        let n = lemma_end_cut(s.drop_last());
        assert(s.drop_last().take(n) =~= s.take(n));
        assert forall|i: int| n <= i < s.len() implies is_white_space(#[trigger] s[i]) by {
            if i < s.len() - 1 {
                assert(s.drop_last()[i] == s[i]);
            }
        }
        n
    } else {
        assert(s.take(s.len() as int) =~= s);
        s.len() as int
    }
}

/// Trimming takes white space off both ends, all of it and nothing else. Where the rest begins and
/// ends is what this function gives.
pub proof fn trimming_takes_white_space_off_the_ends(s: Seq<char>) -> (ends: (int, int))
    ensures
        0 <= ends.0 <= ends.1 <= s.len(),
        trimmed(s) == s.subrange(ends.0, ends.1),
        forall|i: int| 0 <= i < ends.0 ==> is_white_space(#[trigger] s[i]),
        forall|i: int| ends.1 <= i < s.len() ==> is_white_space(#[trigger] s[i]),
        ends.0 < ends.1 ==> !is_white_space(s[ends.0]) && !is_white_space(s[ends.1 - 1]),
{
    trimming_is_stable(s);
    let from = lemma_start_cut(s);
    let rest = s.skip(from);
    let n = lemma_end_cut(rest);
    assert(rest.take(n) =~= s.subrange(from, from + n));
    assert forall|i: int| from + n <= i < s.len() implies is_white_space(#[trigger] s[i]) by {
        assert(rest[i - from] == s[i]);
    }
    (from, from + n)
}

/// White space are the tab and the four line breaks behind it, the space, the next line, the spaces
/// without a break and of Ogham, the eleven spaces of print, the two separators, the two narrow
/// spaces and the wide one. No letter, digit or sign of ASCII is white space.
pub proof fn white_space_is_that_of_unicode(c: char)
    ensures
        is_white_space(c) <==> {
            let code = c as int;
            ||| code == 9
            ||| code == 10
            ||| code == 11
            ||| code == 12
            ||| code == 13
            ||| code == 32
            ||| code == 133
            ||| code == 160
            ||| code == 5760
            ||| 8192 <= code <= 8202
            ||| code == 8232
            ||| code == 8233
            ||| code == 8239
            ||| code == 8287
            ||| code == 12288
        },
        '!' <= c <= '~' ==> !is_white_space(c),
        is_white_space(' '),
        is_white_space('\t'),
        is_white_space('\n'),
        is_white_space('\r'),
{
}

} // verus!
