//! Requests, one after the other, on one table.
use crate::laws::listings::listings_show_what_is_asked_for;
use crate::laws::methods::each_method_has_its_step;
use crate::laws::names::lemma_names;
use crate::laws::patches::patches_keep_the_id;
use crate::laws::priorities::{tight_text_is_trimmed, trimming_is_stable};
use crate::laws::statuses::status_side_effects;
use crate::methods::change::{changed, ChangeModel};
use crate::methods::dispatch::{
    action_of, after_ids, after_task, drafted, first_step, param, param_text, requested_draft,
    requested_id, store_step, StepModel, WriteModel,
};
use crate::methods::kind::{bare_id, bare_of_wire, wire_id};
use crate::methods::listing::{page, subjects_of};
use crate::methods::view::subject_of;
use crate::rpc::{not_found_fault, Fault};
use crate::store::id_gen::{next_id, next_id_is_fresh, next_number};
use crate::store::table::{answered, in_use, keyed, read, request, settled, Setting};
use crate::text::{trimmed, zero_padded, zero_padded_ends_in_a_digit};
use crate::value::Json;
use vstd::prelude::*;
use vstd::string::*;

verus! {

/// A step that stores a task writes it under its own id.
pub proof fn lemma_store_step(rows: Map<Seq<char>, Json>, task: Json, action: Seq<char>)
    ensures
        store_step(task, action) is Reply || store_step(task, action) is Write,
        match task.text("id"@) {
            Some(id) => settled(rows, store_step(task, action)) == (
                rows.insert(id, task),
                Ok::<Json, Fault>(subject_of(task)),
            ),
            None => settled(rows, store_step(task, action)).0 == rows && settled(
                rows,
                store_step(task, action),
            ).1 is Err,
        },
{
}

/// Whether a step writes a task only under its own id.
spec fn writes_keyed(step: StepModel) -> bool {
    step matches StepModel::Write(WriteModel::Upsert { task, row, action }) ==> task.text("id"@)
        == Some(row.id)
}

proof fn lemma_first_step_writes_keyed(method: Seq<char>, params: Option<Json>)
    ensures
        first_step(method, params) matches Some(step) ==> writes_keyed(step),
{
}

proof fn lemma_settled_keyed(rows: Map<Seq<char>, Json>, step: StepModel)
    requires
        keyed(rows),
        step is Reply || step is Write,
        writes_keyed(step),
    ensures
        keyed(settled(rows, step).0),
{
}

proof fn lemma_answered_keyed(rows: Map<Seq<char>, Json>, step: StepModel, at: Setting)
    requires
        keyed(rows),
        writes_keyed(step),
    ensures
        keyed(answered(rows, step, at).0),
{
    match step {
        StepModel::ReadIds(draft) => {
            lemma_settled_keyed(
                rows,
                after_ids(draft, Ok(at.ids), at.prefix, at.pad, at.now),
            );
        },
        StepModel::ReadTask { id, change } => {
            lemma_settled_keyed(
                rows,
                after_task(id, change, read(rows, id), at.patched_at, at.now),
            );
        },
        StepModel::ReadAll(_) => {},
        _ => {
            lemma_settled_keyed(rows, step);
        },
    }
}

/// Every request keeps each row under the id of its payload.
pub proof fn requests_keep_rows_keyed(
    rows: Map<Seq<char>, Json>,
    method: Seq<char>,
    params: Option<Json>,
    at: Setting,
)
    requires
        keyed(rows),
    ensures
        request(rows, method, params, at) matches Some(outcome) ==> keyed(outcome.0),
{
    lemma_first_step_writes_keyed(method, params);
    if first_step(method, params) is Some {
        lemma_answered_keyed(rows, first_step(method, params)->0, at);
    }
}

/// A request that is refused changes nothing.
pub proof fn refused_requests_change_nothing(
    rows: Map<Seq<char>, Json>,
    method: Seq<char>,
    params: Option<Json>,
    at: Setting,
)
    ensures
        request(rows, method, params, at) matches Some(outcome) ==> (outcome.1 is Err ==> outcome.0
            == rows),
{
}

/// A task that was created is what reading its id gives: the reply to `task/create` and the reply
/// to a later `task/get` are the same.
pub proof fn created_tasks_can_be_read(
    rows: Map<Seq<char>, Json>,
    params: Option<Json>,
    at: Setting,
    asked: Option<Json>,
    later: Setting,
)
    requires
        param_text(params, "title"@) is Some,
        !"task:"@.is_prefix_of(next_id(at.ids, at.prefix, at.pad)),
        param_text(asked, "id"@) == Some(wire_id(next_id(at.ids, at.prefix, at.pad))),
    ensures
        ({
            let id = next_id(at.ids, at.prefix, at.pad);
            let draft = requested_draft(params, param_text(params, "title"@)->0);
            let task = drafted(draft, id, at.now);
            let rows_after = rows.insert(id, task);
            &&& request(rows, "task/create"@, params, at) == Some(
                (rows_after, Ok::<Json, Fault>(subject_of(task))),
            )
            &&& subject_of(task).text("id"@) == param_text(asked, "id"@)
            &&& request(rows_after, "task/get"@, asked, later) == Some(
                (rows_after, Ok::<Json, Fault>(subject_of(task))),
            )
        }),
{
    lemma_names();
    each_method_has_its_step(params);
    each_method_has_its_step(asked);
    let id = next_id(at.ids, at.prefix, at.pad);
    let task = drafted(requested_draft(params, param_text(params, "title"@)->0), id, at.now);
    assert(task.text("id"@) == Some(id));
    lemma_store_step(rows, task, "task create"@);
    lemma_wire_id_is_read(at.ids, at.prefix, at.pad, asked);
}

/// The wire id of a new task is read as its id.
proof fn lemma_wire_id_is_read(
    ids: Seq<Seq<char>>,
    prefix: Seq<char>,
    pad: nat,
    asked: Option<Json>,
)
    requires
        !"task:"@.is_prefix_of(next_id(ids, prefix, pad)),
        param_text(asked, "id"@) == Some(wire_id(next_id(ids, prefix, pad))),
    ensures
        requested_id(asked) == Ok::<Seq<char>, Fault>(next_id(ids, prefix, pad)),
{
    let id = next_id(ids, prefix, pad);
    let wire = wire_id(id);
    reveal_strlit("task:");
    zero_padded_ends_in_a_digit(next_number(ids, prefix), pad);
    assert(wire.last() == zero_padded(next_number(ids, prefix), pad).last());
    assert(wire[0] == "task:"@[0]);
    tight_text_is_trimmed(wire);
    assert(wire.subrange(0, "task:"@.len() as int) == "task:"@);
    assert(wire.skip("task:"@.len() as int) == id);
}

/// Creation takes a new id into use and leaves every other task as it is.
pub proof fn creation_adds_one_task(rows: Map<Seq<char>, Json>, params: Option<Json>, at: Setting)
    requires
        param_text(params, "title"@) is Some,
        in_use(rows, at.ids),
    ensures
        !rows.contains_key(next_id(at.ids, at.prefix, at.pad)),
        request(rows, "task/create"@, params, at) matches Some(outcome) && {
            &&& outcome.1 is Ok
            &&& in_use(outcome.0, at.ids.push(next_id(at.ids, at.prefix, at.pad)))
            &&& forall|id: Seq<char>| #[trigger]
                rows.contains_key(id) ==> outcome.0.contains_key(id) && outcome.0[id] == rows[id]
        },
{
    broadcast use vstd::seq_lib::group_seq_properties;

    lemma_names();
    each_method_has_its_step(params);
    let id = next_id(at.ids, at.prefix, at.pad);
    next_id_is_fresh(at.ids, at.prefix, at.pad);
    assert(at.ids.contains(id) == rows.contains_key(id));
    let task = drafted(requested_draft(params, param_text(params, "title"@)->0), id, at.now);
    assert(task.text("id"@) == Some(id));
    lemma_store_step(rows, task, "task create"@);
    let ids = at.ids.push(id);
    assert forall|other: Seq<char>| #[trigger] ids.contains(other) == rows.insert(
        id,
        task,
    ).contains_key(other) by {
        assert(at.ids.contains(other) == rows.contains_key(other));
    }
    assert forall|i: int, j: int| 0 <= i < j < ids.len() implies ids[i] != ids[j] by {
        if j == at.ids.len() {
            assert(at.ids.contains(at.ids[i]));
        }
    }
}

/// Whether a change leaves the id of a task alone. Only a patch whose custom block says an id does
/// not.
pub open spec fn keeps_the_id(change: ChangeModel) -> bool {
    match change {
        ChangeModel::Patch { patch } => patch.nested("custom"@, "id"@) is None,
        _ => true,
    }
}

proof fn lemma_changed_id(task: Json, change: ChangeModel, at: Setting)
    requires
        keeps_the_id(change),
    ensures
        changed(task, change, at.patched_at, at.now) matches Ok(after) ==> after.text("id"@)
            == task.text("id"@),
{
    lemma_names();
    match change {
        ChangeModel::Patch { patch } => {
            patches_keep_the_id(task, patch, at.patched_at);
        },
        ChangeModel::Status { status } => {
            if task is Object {
                status_side_effects(task, status, at.now);
            }
        },
        _ => {},
    }
}

/// A change that is possible is stored under the id of the task and shown; one that is not is
/// refused.
pub proof fn lemma_changed_request(
    rows: Map<Seq<char>, Json>,
    method: Seq<char>,
    params: Option<Json>,
    id: Seq<char>,
    change: ChangeModel,
    at: Setting,
)
    requires
        keyed(rows),
        rows.contains_key(id),
        first_step(method, params) == Some(StepModel::ReadTask { id, change: Some(change) }),
        keeps_the_id(change),
    ensures
        match changed(rows[id], change, at.patched_at, at.now) {
            Ok(task) => request(rows, method, params, at) == Some(
                (rows.insert(id, task), Ok::<Json, Fault>(subject_of(task))),
            ),
            Err(fault) => request(rows, method, params, at) == Some(
                (rows, Err::<Json, Fault>(fault)),
            ),
        },
{
    lemma_changed_id(rows[id], change, at);
    if let Ok(task) = changed(rows[id], change, at.patched_at, at.now) {
        lemma_store_step(rows, task, action_of(change));
    }
}

/// A change is what reading the task then gives: the reply to the change and the reply to a later
/// `task/get` are the same. No other task is touched.
pub proof fn changed_tasks_can_be_read(
    rows: Map<Seq<char>, Json>,
    method: Seq<char>,
    params: Option<Json>,
    id: Seq<char>,
    change: ChangeModel,
    at: Setting,
    asked: Option<Json>,
    later: Setting,
)
    requires
        keyed(rows),
        rows.contains_key(id),
        first_step(method, params) == Some(StepModel::ReadTask { id, change: Some(change) }),
        keeps_the_id(change),
        requested_id(asked) == Ok::<Seq<char>, Fault>(id),
    ensures
        match changed(rows[id], change, at.patched_at, at.now) {
            Ok(task) => {
                &&& request(rows, method, params, at) == Some(
                    (rows.insert(id, task), Ok::<Json, Fault>(subject_of(task))),
                )
                &&& request(rows.insert(id, task), "task/get"@, asked, later) == Some(
                    (rows.insert(id, task), Ok::<Json, Fault>(subject_of(task))),
                )
            },
            Err(fault) => request(rows, method, params, at) == Some(
                (rows, Err::<Json, Fault>(fault)),
            ),
        },
{
    each_method_has_its_step(asked);
    lemma_changed_id(rows[id], change, at);
    if let Ok(task) = changed(rows[id], change, at.patched_at, at.now) {
        lemma_store_step(rows, task, action_of(change));
    }
}

/// A payload that was put in place of a task is what reading the task then gives.
pub proof fn replaced_tasks_can_be_read(
    rows: Map<Seq<char>, Json>,
    params: Option<Json>,
    task: Json,
    id: Seq<char>,
    at: Setting,
    asked: Option<Json>,
    later: Setting,
)
    requires
        param(params, "task"@) == Some(task),
        task.text("id"@) == Some(id),
        requested_id(asked) == Ok::<Seq<char>, Fault>(id),
    ensures
        request(rows, "task/replace"@, params, at) == Some(
            (rows.insert(id, task), Ok::<Json, Fault>(subject_of(task))),
        ),
        request(rows.insert(id, task), "task/get"@, asked, later) == Some(
            (rows.insert(id, task), Ok::<Json, Fault>(subject_of(task))),
        ),
{
    each_method_has_its_step(params);
    each_method_has_its_step(asked);
    lemma_store_step(rows, task, "task replace"@);
}

/// The fault of a request for a task that is not there.
pub open spec fn task_missing(id: Seq<char>) -> Fault {
    not_found_fault("task "@ + id + " not found: "@ + ("task not found: "@ + id))
}

/// The reply to a deletion.
pub open spec fn deletion(id: Seq<char>, deleted: bool) -> Json {
    Json::Object(
        map!["id"@ => Json::String(wire_id(id)), "deleted"@ => Json::Bool(deleted)],
    )
}

/// The `delete` step of the task surface says whether the task was there. Afterwards it is not: reading it is refused, and
/// deleting it again deletes nothing.
pub proof fn deleted_tasks_are_gone(
    rows: Map<Seq<char>, Json>,
    params: Option<Json>,
    id: Seq<char>,
    at: Setting,
    asked: Option<Json>,
    later: Setting,
)
    requires
        requested_id(params) == Ok::<Seq<char>, Fault>(id),
        requested_id(asked) == Ok::<Seq<char>, Fault>(id),
    ensures
        request(rows, "task/delete"@, params, at) == Some(
            (rows.remove(id), Ok::<Json, Fault>(deletion(id, rows.contains_key(id)))),
        ),
        request(rows.remove(id), "task/get"@, asked, later) == Some(
            (rows.remove(id), Err::<Json, Fault>(task_missing(id))),
        ),
        request(rows.remove(id), "task/delete"@, asked, later) == Some(
            (rows.remove(id), Ok::<Json, Fault>(deletion(id, false))),
        ),
{
    each_method_has_its_step(params);
    each_method_has_its_step(asked);
    assert(rows.remove(id).remove(id) =~= rows.remove(id));
}

/// Whatever is asked of a task that is not there is refused, and says so.
pub proof fn missing_tasks_are_refused(
    rows: Map<Seq<char>, Json>,
    method: Seq<char>,
    params: Option<Json>,
    id: Seq<char>,
    change: Option<ChangeModel>,
    at: Setting,
)
    requires
        first_step(method, params) == Some(StepModel::ReadTask { id, change }),
        !rows.contains_key(id),
    ensures
        request(rows, method, params, at) == Some((rows, Err::<Json, Fault>(task_missing(id)))),
{
}

/// The methods that are about one task which is there already.
pub open spec fn is_about_one_task(method: Seq<char>) -> bool {
    ||| method == "task/get"@
    ||| method == "task/update"@
    ||| method == "task/delete"@
    ||| method == "task/assign"@
    ||| method == "task/status"@
    ||| method == "task/add_checklist_item"@
    ||| method == "task/update_checklist_item"@
    ||| method == "task/add_dependency"@
    ||| method == "task/remove_dependency"@
}

/// A request about one task that does not name it is refused before anything is read.
pub proof fn nameless_requests_are_refused(
    rows: Map<Seq<char>, Json>,
    method: Seq<char>,
    params: Option<Json>,
    fault: Fault,
    at: Setting,
)
    requires
        is_about_one_task(method),
        requested_id(params) == Err::<Seq<char>, Fault>(fault),
    ensures
        first_step(method, params) == Some(StepModel::Reply(Err(fault))),
        request(rows, method, params, at) == Some((rows, Err::<Json, Fault>(fault))),
{
    each_method_has_its_step(params);
}

/// A task may be named in either form of its id, and white space around the name does not count.
pub proof fn either_form_names_a_task(
    bare: Option<Json>,
    wire: Option<Json>,
    id: Seq<char>,
)
    requires
        param_text(bare, "id"@) == Some(id),
        trimmed(id).len() > 0,
        param_text(wire, "id"@) == Some(wire_id(trimmed(id))),
    ensures
        requested_id(wire) == requested_id(bare),
        requested_id(bare) == Ok::<Seq<char>, Fault>(bare_id(trimmed(id))),
{
    let name = trimmed(id);
    let full = wire_id(name);
    reveal_strlit("task:");
    trimming_is_stable(id);
    bare_of_wire(name);
    assert(full.last() == name.last());
    assert(full[0] == "task:"@[0] || full[0] == name[0]);
    tight_text_is_trimmed(full);
}

/// The methods that only read.
pub open spec fn only_reads(method: Seq<char>) -> bool {
    ||| method == "task/list"@
    ||| method == "task/list_filtered"@
    ||| method == "task/list_prioritized"@
    ||| method == "task/get"@
    ||| method == "task/next"@
    ||| method == "task/statistics"@
}

/// A request that only reads changes nothing.
pub proof fn readers_change_nothing(
    rows: Map<Seq<char>, Json>,
    method: Seq<char>,
    params: Option<Json>,
    at: Setting,
)
    requires
        only_reads(method),
    ensures
        request(rows, method, params, at) matches Some(outcome) && outcome.0 == rows,
{
    each_method_has_its_step(params);
}

/// Whether two tables have the same rows, but for that of one id.
pub open spec fn same_but_for(
    rows: Map<Seq<char>, Json>,
    others: Map<Seq<char>, Json>,
    id: Seq<char>,
) -> bool {
    rows.remove(id) == others.remove(id)
}

/// No request touches more than one task: there is an id such that only its row may differ.
pub proof fn requests_touch_one_task(
    rows: Map<Seq<char>, Json>,
    method: Seq<char>,
    params: Option<Json>,
    at: Setting,
) -> (id: Seq<char>)
    ensures
        request(rows, method, params, at) matches Some(outcome) ==> same_but_for(
            rows,
            outcome.0,
            id,
        ),
{
    if first_step(method, params) is Some {
        lemma_answered_one_row(rows, first_step(method, params)->0, at)
    } else {
        Seq::empty()
    }
}

proof fn lemma_answered_one_row(rows: Map<Seq<char>, Json>, step: StepModel, at: Setting) -> (id:
    Seq<char>)
    ensures
        same_but_for(rows, answered(rows, step, at).0, id),
{
    match step {
        StepModel::ReadIds(draft) => lemma_one_row(
            rows,
            after_ids(draft, Ok(at.ids), at.prefix, at.pad, at.now),
        ),
        StepModel::ReadTask { id, change } => lemma_one_row(
            rows,
            after_task(id, change, read(rows, id), at.patched_at, at.now),
        ),
        StepModel::ReadAll(_) => Seq::empty(),
        _ => lemma_one_row(rows, step),
    }
}

proof fn lemma_one_row(rows: Map<Seq<char>, Json>, step: StepModel) -> (id: Seq<char>)
    requires
        step is Reply || step is Write,
    ensures
        same_but_for(rows, settled(rows, step).0, id),
{
    let after = settled(rows, step).0;
    match step {
        StepModel::Write(WriteModel::Upsert { task, row, action }) => {
            assert(rows.remove(row.id) =~= after.remove(row.id));
            row.id
        },
        StepModel::Write(WriteModel::Delete { id }) => {
            assert(rows.remove(id) =~= after.remove(id));
            id
        },
        _ => Seq::empty(),
    }
}

/// A listing without parameters shows every task, in the order in which the table gives them.
pub proof fn every_task_is_listed(rows: Map<Seq<char>, Json>, at: Setting, id: Seq<char>)
    requires
        in_use(rows, at.ids),
        rows.contains_key(id),
    ensures
        request(rows, "task/list"@, None, at) == Some(
            (
                rows,
                Ok::<Json, Fault>(
                    page(subjects_of(at.ids.map_values(|id: Seq<char>| rows[id]))),
                ),
            ),
        ),
        at.ids.map_values(|id: Seq<char>| rows[id]).contains(rows[id]),
{
    each_method_has_its_step(None);
    let tasks = at.ids.map_values(|id: Seq<char>| rows[id]);
    listings_show_what_is_asked_for(tasks, None, None);
    assert(at.ids.contains(id));
    let i = choose|i: int| 0 <= i < at.ids.len() && at.ids[i] == id;
    assert(tasks[i] == rows[id]);
}

} // verus!
