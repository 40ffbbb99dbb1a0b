//! Statuses and bookkeeping.
use crate::backend::{written_status, SubjectStatus};
use crate::laws::names::lemma_names;
use crate::methods::patch::{completes, in_status, unblocks};
use crate::methods::view::normalized;
use crate::store::crud::{stamped, text_of};
use crate::value::Json;
use vstd::prelude::*;

verus! {

/// Whether putting a task in `status` may change its member `key`.
pub open spec fn touched_by_status(status: Seq<char>, key: Seq<char>) -> bool {
    ||| key == "status"@
    ||| status == "blocked"@ && key == "blocked_at"@
    ||| unblocks(status) && (key == "paused"@ || key == "blocked_at"@ || key == "blocked_reason"@
        || key == "blocked_by"@)
    ||| completes(status) && key == "metadata"@
    ||| status == "cancelled"@ && key == "cancelled"@
}

/// A status is written down with its side effects and with no others: `blocked` dates the block;
/// `in-progress` and `ready` lift the pause and the block; `completed` and `done` date the
/// completion, where there is bookkeeping; `cancelled` sets the flag.
pub proof fn status_side_effects(task: Json, status: Seq<char>, now: Seq<char>)
    requires
        task is Object,
    ensures
        in_status(task, status, now).text("status"@) == Some(status),
        status == "blocked"@ ==> in_status(task, status, now).text("blocked_at"@) == Some(now),
        unblocks(status) ==> {
            &&& in_status(task, status, now).flag("paused"@) == Some(false)
            &&& in_status(task, status, now).field("blocked_at"@) == Some(Json::Null)
            &&& in_status(task, status, now).field("blocked_reason"@) == Some(Json::Null)
            &&& in_status(task, status, now).field("blocked_by"@) == Some(Json::Null)
        },
        completes(status) && (task.field("metadata"@) matches Some(Json::Object(_))) ==> text_of(
            in_status(task, status, now).nested("metadata"@, "completed_at"@),
        ) == Some(now),
        status == "cancelled"@ ==> in_status(task, status, now).flag("cancelled"@) == Some(true),
        forall|key: Seq<char>|
            !touched_by_status(status, key) ==> #[trigger] in_status(task, status, now).field(key)
                == task.field(key),
        forall|key: Seq<char>|
            key != "completed_at"@ ==> #[trigger] in_status(task, status, now).nested(
                "metadata"@,
                key,
            ) == task.nested("metadata"@, key),
{
    lemma_names();
}

/// Work begins or can begin in the statuses `in-progress`, `in_progress` and `ready`, which lift a
/// block; it is over in `completed` and `done`, which date the completion.
pub proof fn statuses_that_unblock_and_complete(status: Seq<char>)
    ensures
        unblocks(status) <==> status == "in-progress"@ || status == "in_progress"@ || status
            == "ready"@,
        completes(status) <==> status == "completed"@ || status == "done"@,
{
}

/// Work in progress and readiness undo a block, whatever its reason was.
pub proof fn unblocking_clears_a_block(
    task: Json,
    blocked_at: Seq<char>,
    status: Seq<char>,
    now: Seq<char>,
)
    requires
        task is Object,
        unblocks(status),
    ensures
        in_status(in_status(task, "blocked"@, blocked_at), status, now) == in_status(
            task,
            status,
            now,
        ),
{
    lemma_names();
    let once = in_status(task, status, now);
    let twice = in_status(in_status(task, "blocked"@, blocked_at), status, now);
    assert(once->Object_0 =~= twice->Object_0);
}

/// The same status at the same time is written down once.
pub proof fn status_is_idempotent(task: Json, status: Seq<char>, now: Seq<char>)
    ensures
        in_status(in_status(task, status, now), status, now) == in_status(task, status, now),
{
    lemma_names();
    if task is Object {
        let once = in_status(task, status, now);
        let twice = in_status(once, status, now);
        if completes(status) {
            if let Some(Json::Object(_)) = task.field("metadata"@) {
                assert(once.field("metadata"@)->0->Object_0 =~= twice.field(
                    "metadata"@,
                )->0->Object_0);
            }
        }
        assert(once->Object_0 =~= twice->Object_0);
    }
}

/// The normalized statuses.
pub open spec fn is_normalized(status: Seq<char>) -> bool {
    ||| status == "ready"@
    ||| status == "in-progress"@
    ||| status == "blocked"@
    ||| status == "done"@
    ||| status == "cancelled"@
}

/// Every native status has one of the five normalized ones, and a normalized status is its own.
pub proof fn normalizing_is_stable(native: Seq<char>)
    ensures
        is_normalized(normalized(native)),
        is_normalized(native) ==> normalized(native) == native,
        normalized(normalized(native)) == normalized(native),
{
    lemma_names();
}

/// The name of a normalized status.
pub open spec fn status_name(status: SubjectStatus) -> Seq<char> {
    match status {
        SubjectStatus::Ready => "ready"@,
        SubjectStatus::InProgress => "in-progress"@,
        SubjectStatus::Blocked => "blocked"@,
        SubjectStatus::Done => "done"@,
        SubjectStatus::Cancelled => "cancelled"@,
    }
}

/// A normalized status that is written down natively reads as that status again.
pub proof fn statuses_survive_writing(status: SubjectStatus)
    ensures
        normalized(written_status(status)) == status_name(status),
{
    lemma_names();
}

/// A stamp dates and signs the bookkeeping, which it makes where there is none, and touches
/// nothing else.
pub proof fn stamp_dates_the_bookkeeping(task: Json, now: Seq<char>, by: Seq<char>)
    requires
        task is Object,
        task.field("metadata"@) matches Some(metadata) ==> metadata is Object,
    ensures
        text_of(stamped(task, now, by).nested("metadata"@, "updated_at"@)) == Some(now),
        text_of(stamped(task, now, by).nested("metadata"@, "updated_by"@)) == Some(by),
        forall|key: Seq<char>|
            key != "updated_at"@ && key != "updated_by"@ ==> #[trigger] stamped(
                task,
                now,
                by,
            ).nested("metadata"@, key) == task.nested("metadata"@, key),
        forall|key: Seq<char>|
            key != "metadata"@ ==> #[trigger] stamped(task, now, by).field(key) == task.field(key),
{
    lemma_names();
}

/// Bookkeeping that is not an object is left as it is, and so is a task that is not one.
pub proof fn stamp_keeps_what_it_cannot_date(task: Json, now: Seq<char>, by: Seq<char>)
    requires
        !(task is Object) || (task.field("metadata"@) matches Some(metadata) && !(metadata is Object)),
    ensures
        stamped(task, now, by) == task,
{
    if task is Object {
        assert(stamped(task, now, by)->Object_0 =~= task->Object_0);
    }
}

/// Of two stamps the later one stays.
pub proof fn last_stamp_stays(
    task: Json,
    before: Seq<char>,
    before_by: Seq<char>,
    now: Seq<char>,
    by: Seq<char>,
)
    ensures
        stamped(stamped(task, before, before_by), now, by) == stamped(task, now, by),
{
    lemma_names();
    if task is Object {
        let once = stamped(task, now, by);
        let twice = stamped(stamped(task, before, before_by), now, by);
        if once.field("metadata"@)->0 is Object {
            assert(once.field("metadata"@)->0->Object_0 =~= twice.field("metadata"@)->0->Object_0);
        }
        assert(once->Object_0 =~= twice->Object_0);
    }
}

} // verus!
