//! The wall clock.
use vstd::prelude::*;
use vstd::string::*;

verus! {

/// What is known of the text of a time in UTC: it has at least a date, a time of day to the second
/// and the offset of UTC, which comes last.
pub open spec fn is_utc_time(text: Seq<char>) -> bool {
    &&& text.len() >= 25
    &&& text.skip(text.len() - 6) == "+00:00"@
}

/// `chrono::Utc::now` gives the current date and time in UTC, and
/// `chrono::DateTime::to_rfc3339` its RFC 3339 text, such as `2026-05-23T08:30:00.123+00:00`.
///
/// The claim is that the text is at least as long as one without a fraction of a second, and that
/// it ends in the offset of UTC. Which time it says is left open: it is a different one at each
/// call. `Utc::now` panics where the clock is set to a time before 1970.
#[verifier::external_body]
pub(crate) fn now_rfc3339() -> (now: String)
    ensures
        is_utc_time(now@),
{
    chrono::Utc::now().to_rfc3339()
}

/// There are texts of a time in UTC.
pub proof fn lemma_some_utc_time() -> (now: Seq<char>)
    ensures
        is_utc_time(now),
{
    let now = "1970-01-01T00:00:00+00:00"@;
    reveal_strlit("1970-01-01T00:00:00+00:00");
    reveal_strlit("+00:00");
    assert(now.skip(now.len() - 6) =~= "+00:00"@);
    now
}

} // verus!
