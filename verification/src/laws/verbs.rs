//! What each request about one task does to the stored task, told from the parameters.
use crate::laws::answers::own_status;
use crate::laws::checklists::lemma_first_with;
use crate::laws::labels::{
    array_of, strings_are_written_in_order, strings_of_a_member_are_read, words,
};
use crate::laws::methods::each_method_has_its_step;
use crate::laws::names::lemma_names;
use crate::laws::patches::patched_objects_are_objects;
use crate::laws::priorities::tight_text_is_trimmed;
use crate::laws::requests::{lemma_changed_request, lemma_store_step};
use crate::laws::sequences::lemma_filter;
use crate::methods::change::{changed, first_with, ChangeModel};
use crate::methods::dispatch::{drafted, requested_draft, requested_id};
use crate::methods::kind::bare_id;
use crate::methods::patch::{canonical, patched};
use crate::methods::view::subject_of;
use crate::rpc::Fault;
use crate::store::id_gen::next_id;
use crate::store::table::{keyed, request, Setting};
use crate::text::{is_white_space, zero_padded};
use crate::value::Json;
use vstd::prelude::*;
use vstd::string::*;

verus! {

/// Whether parameters name the task `id`, by its id or by its wire id.
pub open spec fn names_task(params: Json, id: Seq<char>) -> bool {
    &&& id.len() > 0
    &&& !is_white_space(id[0])
    &&& !is_white_space(id.last())
    &&& !"task:"@.is_prefix_of(id)
    &&& params.text("id"@) == Some(id) || params.text("id"@) == Some("task:"@ + id)
}

/// Parameters that name a task are read as naming it.
pub proof fn named_tasks_are_meant(params: Json, id: Seq<char>)
    requires
        names_task(params, id),
    ensures
        requested_id(Some(params)) == Ok::<Seq<char>, Fault>(id),
{
    reveal_strlit("task:");
    let wire = "task:"@ + id;
    tight_text_is_trimmed(id);
    assert(wire.last() == id.last());
    assert(wire[0] == 't');
    tight_text_is_trimmed(wire);
    assert(wire.subrange(0, "task:"@.len() as int) == "task:"@);
    assert(wire.skip("task:"@.len() as int) == id);
}

/// Whether a request was answered with the task `id` as it is now stored, and left every other
/// task as it was.
pub open spec fn stores(
    rows: Map<Seq<char>, Json>,
    outcome: Option<(Map<Seq<char>, Json>, Result<Json, Fault>)>,
    id: Seq<char>,
) -> bool {
    &&& outcome is Some
    &&& (outcome->0).0.contains_key(id)
    &&& (outcome->0).0.remove(id) == rows.remove(id)
    &&& (outcome->0).1 == Ok::<Json, Fault>(subject_of((outcome->0).0[id]))
}

/// Whether two tasks have the same members, but for those of some names.
pub open spec fn same_apart_from(before: Json, after: Json, names: Set<Seq<char>>) -> bool {
    forall|key: Seq<char>| !names.contains(key) ==> #[trigger] after.field(key) == before.field(key)
}

/// Whether a task says in its bookkeeping that it was last changed then and by whom, and keeps the
/// rest of the bookkeeping; one whose bookkeeping is no object keeps that.
pub open spec fn is_stamped(before: Json, after: Json, now: Seq<char>, by: Seq<char>) -> bool {
    match before.field("metadata"@) {
        Some(metadata) => if metadata is Object {
            &&& after.nested("metadata"@, "updated_at"@) == Some(Json::String(now))
            &&& after.nested("metadata"@, "updated_by"@) == Some(Json::String(by))
            &&& forall|key: Seq<char>|
                key != "updated_at"@ && key != "updated_by"@ ==> #[trigger] after.nested(
                    "metadata"@,
                    key,
                ) == metadata.field(key)
        } else {
            after.field("metadata"@) == Some(metadata)
        },
        None => {
            &&& after.nested("metadata"@, "updated_at"@) == Some(Json::String(now))
            &&& after.nested("metadata"@, "updated_by"@) == Some(Json::String(by))
        },
    }
}

/// Who a request says it comes from.
pub open spec fn signer(params: Json) -> Seq<char> {
    match params.text("updated_by"@) {
        Some(by) => by,
        None => "animus.subject.default"@,
    }
}

/// `task/get` shows the task that the parameters name as it is stored, and changes nothing.
pub proof fn reading_shows_the_stored_task(
    rows: Map<Seq<char>, Json>,
    params: Json,
    id: Seq<char>,
    at: Setting,
)
    requires
        rows.contains_key(id),
        names_task(params, id),
    ensures
        request(rows, "task/get"@, Some(params), at) == Some(
            (rows, Ok::<Json, Fault>(subject_of(rows[id]))),
        ),
{
    named_tasks_are_meant(params, id);
    each_method_has_its_step(Some(params));
}

/// `task/delete` takes out the task that the parameters name and leaves every other one; the answer
/// has the wire id and says whether there was such a task.
pub proof fn deletion_requests_take_the_task_out(
    rows: Map<Seq<char>, Json>,
    params: Json,
    id: Seq<char>,
    at: Setting,
)
    requires
        names_task(params, id),
    ensures
        ({
            let outcome = request(rows, "task/delete"@, Some(params), at);
            &&& outcome is Some
            &&& (outcome->0).0 == rows.remove(id)
            &&& (outcome->0).1 is Ok
            &&& ((outcome->0).1->Ok_0).field("id"@) == Some(Json::String("task:"@ + id))
            &&& ((outcome->0).1->Ok_0).field("deleted"@) == Some(
                Json::Bool(rows.contains_key(id)),
            )
        }),
{
    lemma_names();
    named_tasks_are_meant(params, id);
    each_method_has_its_step(Some(params));
}

/// `task/replace` stores the payload of the parameters as it is, under its own id.
pub proof fn replacements_store_the_payload(
    rows: Map<Seq<char>, Json>,
    params: Json,
    task: Json,
    id: Seq<char>,
    at: Setting,
)
    requires
        params.field("task"@) == Some(task),
        task.field("id"@) == Some(Json::String(id)),
    ensures
        request(rows, "task/replace"@, Some(params), at) == Some(
            (rows.insert(id, task), Ok::<Json, Fault>(subject_of(task))),
        ),
{
    each_method_has_its_step(Some(params));
    lemma_store_step(rows, task, "task replace"@);
}

/// `task/assign` sets the assignee that the parameters name.
pub proof fn assigning_sets_the_assignee(
    rows: Map<Seq<char>, Json>,
    params: Json,
    id: Seq<char>,
    assignee: Seq<char>,
    at: Setting,
)
    requires
        keyed(rows),
        rows.contains_key(id),
        names_task(params, id),
        params.text("assignee"@) == Some(assignee),
    ensures
        ({
            let outcome = request(rows, "task/assign"@, Some(params), at);
            let task = (outcome->0).0[id];
            &&& stores(rows, outcome, id)
            &&& task.field("assignee"@) == Some(Json::String(assignee))
            &&& same_apart_from(rows[id], task, set!["assignee"@, "metadata"@])
            &&& is_stamped(rows[id], task, at.now, "animus.subject.default"@)
        }),
{
    lemma_names();
    named_tasks_are_meant(params, id);
    each_method_has_its_step(Some(params));
    let change = ChangeModel::Assign { assignee };
    lemma_changed_request(rows, "task/assign"@, Some(params), id, change, at);
    let task = changed(rows[id], change, at.patched_at, at.now)->Ok_0;
    assert(rows.insert(id, task).remove(id) =~= rows.remove(id));
}

/// `task/status` puts the task in the status that the parameters name. A task that becomes
/// `blocked` is dated; one that becomes `ready`, `in-progress` or `in_progress` is neither paused
/// nor blocked any more; one that becomes `completed` or `done` is dated in its bookkeeping, where
/// it has any; one that becomes `cancelled` is flagged. Nothing else changes.
pub proof fn status_requests_move_the_task(
    rows: Map<Seq<char>, Json>,
    params: Json,
    id: Seq<char>,
    status: Seq<char>,
    at: Setting,
)
    requires
        keyed(rows),
        rows.contains_key(id),
        names_task(params, id),
        params.text("status"@) == Some(status),
    ensures
        ({
            let outcome = request(rows, "task/status"@, Some(params), at);
            let task = (outcome->0).0[id];
            &&& stores(rows, outcome, id)
            &&& task.field("status"@) == Some(Json::String(status))
            &&& status == "blocked"@ ==> {
                &&& task.field("blocked_at"@) == Some(Json::String(at.now))
                &&& same_apart_from(
                    rows[id],
                    task,
                    set!["status"@, "blocked_at"@, "metadata"@],
                )
                &&& is_stamped(rows[id], task, at.now, "animus.subject.default"@)
            }
            &&& status == "ready"@ || status == "in-progress"@ || status == "in_progress"@ ==> {
                &&& task.field("paused"@) == Some(Json::Bool(false))
                &&& task.field("blocked_at"@) == Some(Json::Null)
                &&& task.field("blocked_reason"@) == Some(Json::Null)
                &&& task.field("blocked_by"@) == Some(Json::Null)
                &&& same_apart_from(
                    rows[id],
                    task,
                    set![
                        "status"@,
                        "paused"@,
                        "blocked_at"@,
                        "blocked_reason"@,
                        "blocked_by"@,
                        "metadata"@,
                    ],
                )
                &&& is_stamped(rows[id], task, at.now, "animus.subject.default"@)
            }
            &&& status == "completed"@ || status == "done"@ ==> {
                &&& same_apart_from(rows[id], task, set!["status"@, "metadata"@])
                &&& (rows[id].field("metadata"@) matches Some(Json::Object(_))) ==> {
                    &&& task.nested("metadata"@, "completed_at"@) == Some(Json::String(at.now))
                    &&& task.nested("metadata"@, "updated_at"@) == Some(Json::String(at.now))
                    &&& forall|key: Seq<char>|
                        key != "completed_at"@ && key != "updated_at"@ && key != "updated_by"@
                            ==> #[trigger] task.nested("metadata"@, key) == rows[id].nested(
                            "metadata"@,
                            key,
                        )
                }
                &&& rows[id].field("metadata"@) is None ==> task.nested(
                    "metadata"@,
                    "completed_at"@,
                ) is None
            }
            &&& status == "cancelled"@ ==> {
                &&& task.field("cancelled"@) == Some(Json::Bool(true))
                &&& same_apart_from(
                    rows[id],
                    task,
                    set!["status"@, "cancelled"@, "metadata"@],
                )
                &&& is_stamped(rows[id], task, at.now, "animus.subject.default"@)
            }
            &&& status != "blocked"@ && status != "ready"@ && status != "in-progress"@ && status
                != "in_progress"@ && status != "completed"@ && status != "done"@ && status
                != "cancelled"@ ==> {
                &&& same_apart_from(rows[id], task, set!["status"@, "metadata"@])
                &&& is_stamped(rows[id], task, at.now, "animus.subject.default"@)
            }
        }),
{
    lemma_names();
    named_tasks_are_meant(params, id);
    each_method_has_its_step(Some(params));
    let change = ChangeModel::Status { status };
    lemma_changed_request(rows, "task/status"@, Some(params), id, change, at);
    let task = changed(rows[id], change, at.patched_at, at.now)->Ok_0;
    assert(rows.insert(id, task).remove(id) =~= rows.remove(id));
    assert(rows[id] is Object);
}

/// `task/add_checklist_item` puts one more item at the end of the checklist: open, dated, with the
/// description of the parameters and with an id that counts the items, such as `CL-002`.
pub proof fn item_requests_add_an_item(
    rows: Map<Seq<char>, Json>,
    params: Json,
    id: Seq<char>,
    description: Seq<char>,
    items: Seq<Json>,
    at: Setting,
)
    requires
        keyed(rows),
        rows.contains_key(id),
        names_task(params, id),
        params.text("description"@) == Some(description),
        rows[id].field("checklist"@) == Some(Json::Array(items)) || (rows[id].field(
            "checklist"@,
        ) is None && items.len() == 0),
    ensures
        ({
            let outcome = request(rows, "task/add_checklist_item"@, Some(params), at);
            let task = (outcome->0).0[id];
            let after = task.items("checklist"@)->0;
            let item = after[items.len() as int];
            &&& stores(rows, outcome, id)
            &&& task.items("checklist"@) is Some
            &&& after.len() == items.len() + 1
            &&& forall|i: int| 0 <= i < items.len() ==> #[trigger] after[i] == items[i]
            &&& item.field("id"@) == Some(
                Json::String("CL-"@ + zero_padded(items.len() + 1, 3)),
            )
            &&& item.field("description"@) == Some(Json::String(description))
            &&& item.field("completed"@) == Some(Json::Bool(false))
            &&& item.field("created_at"@) == Some(Json::String(at.now))
            &&& item.field("updated_at"@) == Some(Json::String(at.now))
            &&& same_apart_from(rows[id], task, set!["checklist"@, "metadata"@])
            &&& is_stamped(rows[id], task, at.now, signer(params))
        }),
{
    lemma_names();
    named_tasks_are_meant(params, id);
    each_method_has_its_step(Some(params));
    let change = ChangeModel::AddChecklistItem { description, updated_by: signer(params) };
    if rows[id].field("checklist"@) is None {
        assert(items =~= Seq::empty());
    }
    lemma_changed_request(rows, "task/add_checklist_item"@, Some(params), id, change, at);
    let task = changed(rows[id], change, at.patched_at, at.now)->Ok_0;
    assert(rows.insert(id, task).remove(id) =~= rows.remove(id));
}

/// `task/update_checklist_item` gives the first item with the id of the parameters the flag of the
/// parameters, whichever it is, and dates it. Nothing else of it changes, and no other item does.
pub proof fn item_requests_mark_an_item(
    rows: Map<Seq<char>, Json>,
    params: Json,
    id: Seq<char>,
    item_id: Seq<char>,
    completed: bool,
    items: Seq<Json>,
    place: int,
    at: Setting,
)
    requires
        keyed(rows),
        rows.contains_key(id),
        names_task(params, id),
        params.field("item_id"@) == Some(Json::String(item_id)),
        params.field("completed"@) == Some(Json::Bool(completed)),
        rows[id].field("checklist"@) == Some(Json::Array(items)),
        0 <= place < items.len(),
        items[place].field("id"@) == Some(Json::String(item_id)),
        forall|i: int|
            0 <= i < place ==> (#[trigger] items[i]).field("id"@) != Some(Json::String(item_id)),
    ensures
        ({
            let outcome = request(rows, "task/update_checklist_item"@, Some(params), at);
            let task = (outcome->0).0[id];
            let after = task.items("checklist"@)->0;
            &&& stores(rows, outcome, id)
            &&& task.items("checklist"@) is Some
            &&& after.len() == items.len()
            &&& after[place].field("completed"@) == Some(Json::Bool(completed))
            &&& after[place].field("updated_at"@) == Some(Json::String(at.now))
            &&& same_apart_from(items[place], after[place], set!["completed"@, "updated_at"@])
            &&& forall|i: int|
                0 <= i < items.len() && i != place ==> #[trigger] after[i] == items[i]
            &&& same_apart_from(rows[id], task, set!["checklist"@, "metadata"@])
            &&& is_stamped(rows[id], task, at.now, signer(params))
        }),
{
    lemma_names();
    named_tasks_are_meant(params, id);
    each_method_has_its_step(Some(params));
    let change = ChangeModel::UpdateChecklistItem {
        item_id,
        completed,
        updated_by: signer(params),
    };
    lemma_first_with(items, "id"@, item_id);
    assert(items[place].text("id"@) == Some(item_id));
    assert forall|i: int| 0 <= i < place implies (#[trigger] items[i]).text("id"@) != Some(
        item_id,
    ) by {
        if items[i].text("id"@) == Some(item_id) {
            assert(items[i].field("id"@) == Some(Json::String(item_id)));
        }
    }
    assert(first_with(items, "id"@, item_id) == Some(place));
    lemma_changed_request(rows, "task/update_checklist_item"@, Some(params), id, change, at);
    let task = changed(rows[id], change, at.patched_at, at.now)->Ok_0;
    assert(rows.insert(id, task).remove(id) =~= rows.remove(id));
}

/// `task/add_dependency` puts the task that the parameters name, by its bare id, at the end of the
/// dependencies: with the type of the parameters, which is `blocks` where they give none, and
/// dated. Dependencies that name it already stay as they are, and it is not added again.
pub proof fn dependency_requests_add_once(
    rows: Map<Seq<char>, Json>,
    params: Json,
    id: Seq<char>,
    other: Seq<char>,
    items: Seq<Json>,
    at: Setting,
)
    requires
        keyed(rows),
        rows.contains_key(id),
        names_task(params, id),
        !"task:"@.is_prefix_of(other),
        params.text("dependency_id"@) == Some(other) || params.text("dependency_id"@) == Some(
            "task:"@ + other,
        ),
        rows[id].field("dependencies"@) == Some(Json::Array(items)) || (rows[id].field(
            "dependencies"@,
        ) is None && items.len() == 0),
    ensures
        ({
            let outcome = request(rows, "task/add_dependency"@, Some(params), at);
            let task = (outcome->0).0[id];
            let after = task.items("dependencies"@)->0;
            let there = exists|i: int|
                0 <= i < items.len() && (#[trigger] items[i]).field("dependency_id"@) == Some(
                    Json::String(other),
                );
            &&& stores(rows, outcome, id)
            &&& task.items("dependencies"@) is Some
            &&& there ==> after == items
            &&& !there ==> {
                let added = after[items.len() as int];
                &&& after.len() == items.len() + 1
                &&& forall|i: int| 0 <= i < items.len() ==> #[trigger] after[i] == items[i]
                &&& added.field("dependency_id"@) == Some(Json::String(other))
                &&& added.field("dependency_type"@) == Some(
                    match params.text("dependency_type"@) {
                        Some(given) => Json::String(given),
                        None => Json::String("blocks"@),
                    },
                )
                &&& added.field("added_at"@) == Some(Json::String(at.now))
            }
            &&& same_apart_from(rows[id], task, set!["dependencies"@, "metadata"@])
            &&& is_stamped(rows[id], task, at.now, signer(params))
        }),
{
    lemma_names();
    lemma_bare(other);
    named_tasks_are_meant(params, id);
    each_method_has_its_step(Some(params));
    let given = params.text("dependency_id"@)->0;
    let kind = match params.text("dependency_type"@) {
        Some(kind) => kind,
        None => "blocks"@,
    };
    let change = ChangeModel::AddDependency {
        dependency_id: given,
        dependency_type: kind,
        updated_by: signer(params),
    };
    if rows[id].field("dependencies"@) is None {
        assert(items =~= Seq::empty());
    }
    lemma_first_with(items, "dependency_id"@, other);
    assert forall|i: int| 0 <= i < items.len() implies ((#[trigger] items[i]).text(
        "dependency_id"@,
    ) == Some(other)) == (items[i].field("dependency_id"@) == Some(Json::String(other))) by {}
    lemma_changed_request(rows, "task/add_dependency"@, Some(params), id, change, at);
    let task = changed(rows[id], change, at.patched_at, at.now)->Ok_0;
    assert(rows.insert(id, task).remove(id) =~= rows.remove(id));
}

proof fn lemma_bare(other: Seq<char>)
    requires
        !"task:"@.is_prefix_of(other),
    ensures
        bare_id(other) == other,
        bare_id("task:"@ + other) == other,
{
    let wire = "task:"@ + other;
    assert(wire.subrange(0, "task:"@.len() as int) == "task:"@);
    assert(wire.skip("task:"@.len() as int) == other);
}

/// `task/remove_dependency` takes out every dependency on the task that the parameters name, and
/// keeps the others in their order.
pub proof fn dependency_requests_remove_all(
    rows: Map<Seq<char>, Json>,
    params: Json,
    id: Seq<char>,
    other: Seq<char>,
    items: Seq<Json>,
    at: Setting,
)
    requires
        keyed(rows),
        rows.contains_key(id),
        names_task(params, id),
        !"task:"@.is_prefix_of(other),
        params.text("dependency_id"@) == Some(other) || params.text("dependency_id"@) == Some(
            "task:"@ + other,
        ),
        rows[id].field("dependencies"@) == Some(Json::Array(items)),
    ensures
        ({
            let outcome = request(rows, "task/remove_dependency"@, Some(params), at);
            let task = (outcome->0).0[id];
            let after = task.items("dependencies"@)->0;
            &&& stores(rows, outcome, id)
            &&& task.items("dependencies"@) is Some
            &&& after == items.filter(
                |d: Json| d.field("dependency_id"@) != Some(Json::String(other)),
            )
            &&& forall|i: int|
                0 <= i < after.len() ==> (#[trigger] after[i]).field("dependency_id"@) != Some(
                    Json::String(other),
                )
            &&& forall|d: Json|
                items.contains(d) && d.field("dependency_id"@) != Some(Json::String(other))
                    ==> #[trigger] after.contains(d)
            &&& same_apart_from(rows[id], task, set!["dependencies"@, "metadata"@])
            &&& is_stamped(rows[id], task, at.now, signer(params))
        }),
{
    lemma_names();
    lemma_bare(other);
    named_tasks_are_meant(params, id);
    each_method_has_its_step(Some(params));
    let given = params.text("dependency_id"@)->0;
    let change = ChangeModel::RemoveDependency { dependency_id: given, updated_by: signer(params) };
    let stays = |d: Json| d.text("dependency_id"@) != Some(other);
    let keeps = |d: Json| d.field("dependency_id"@) != Some(Json::String(other));
    assert forall|d: Json| #[trigger] stays(d) == keeps(d) by {}
    lemma_same_filter(items, stays, keeps);
    lemma_filter(items, keeps);
    let after = items.filter(keeps);
    assert forall|i: int| 0 <= i < after.len() implies (#[trigger] after[i]).field(
        "dependency_id"@,
    ) != Some(Json::String(other)) by {
        assert(after.contains(after[i]));
        assert(keeps(after[i]));
    }
    assert forall|d: Json|
        items.contains(d) && d.field("dependency_id"@) != Some(
            Json::String(other),
        ) implies #[trigger] after.contains(d) by {
        assert(keeps(d));
    }
    lemma_changed_request(rows, "task/remove_dependency"@, Some(params), id, change, at);
    let task = changed(rows[id], change, at.patched_at, at.now)->Ok_0;
    assert(task.items("dependencies"@) == Some(after));
    assert(rows.insert(id, task).remove(id) =~= rows.remove(id));
}

proof fn lemma_same_filter(
    s: Seq<Json>,
    pass: spec_fn(Json) -> bool,
    passes: spec_fn(Json) -> bool,
)
    requires
        forall|d: Json| #[trigger] pass(d) == passes(d),
    ensures
        s.filter(pass) == s.filter(passes),
    decreases s.len(),
{
    reveal(Seq::filter);
    if s.len() > 0 {
        lemma_same_filter(s.drop_last(), pass, passes);
        assert(pass(s.last()) == passes(s.last()));
    }
}

/// `task/update` applies the patch of the parameters: their member `patch`, or, where they have
/// none, the parameters themselves. The task is as the patch makes it, and stamped.
pub proof fn update_requests_apply_the_patch(
    rows: Map<Seq<char>, Json>,
    params: Json,
    id: Seq<char>,
    patch: Json,
    at: Setting,
)
    requires
        keyed(rows),
        rows.contains_key(id),
        names_task(params, id),
        params.field("patch"@) == Some(patch) || (params.field("patch"@) is None && patch
            == params),
        patch.nested("custom"@, "id"@) is None,
    ensures
        ({
            let outcome = request(rows, "task/update"@, Some(params), at);
            let task = (outcome->0).0[id];
            let with_patch = patched(rows[id], patch, at.patched_at);
            &&& stores(rows, outcome, id)
            &&& same_apart_from(with_patch, task, set!["metadata"@])
            &&& is_stamped(with_patch, task, at.now, "animus.subject.default"@)
        }),
{
    lemma_names();
    named_tasks_are_meant(params, id);
    each_method_has_its_step(Some(params));
    let change = ChangeModel::Patch { patch };
    lemma_changed_request(rows, "task/update"@, Some(params), id, change, at);
    patched_objects_are_objects(rows[id], patch, at.patched_at);
    let task = changed(rows[id], change, at.patched_at, at.now)->Ok_0;
    assert(rows.insert(id, task).remove(id) =~= rows.remove(id));
}

/// Whether a task is what the parameters of a creation ask for: it has their title, their body as
/// description, their priority in canonical form, their type, labels and links, and their status
/// with what it brings along. Where they say nothing it is a medium feature in the backlog, without
/// labels and links. It is of medium scope and risk, has neither checklist nor dependencies, is
/// assigned to nobody, is neither paused nor due, and is dated and signed.
pub open spec fn is_asked_for(
    params: Json,
    title: Seq<char>,
    id: Seq<char>,
    now: Seq<char>,
    task: Json,
) -> bool {
    let status = own_status(params);
    &&& task.field("id"@) == Some(Json::String(id))
    &&& task.field("title"@) == Some(Json::String(title))
    &&& task.field("description"@) == Some(
        match params.field("body"@) {
            Some(Json::String(body)) => Json::String(body),
            _ => Json::String(Seq::empty()),
        },
    )
    &&& task.field("priority"@) == Some(
        match params.field("priority"@) {
            Some(Json::String(priority)) => Json::String(canonical(priority)),
            _ => Json::String("medium"@),
        },
    )
    &&& task.field("task_type"@) == Some(
        match params.field("task_type"@) {
            Some(Json::String(task_type)) => Json::String(task_type),
            _ => Json::String("feature"@),
        },
    )
    &&& task.field("tags"@) == Some(array_of(words(params.field("labels"@))))
    &&& task.field("linked_requirements"@) == Some(
        array_of(words(params.field("linked_requirements"@))),
    )
    &&& task.field("linked_architecture_entities"@) == Some(
        array_of(words(params.field("linked_architecture_entities"@))),
    )
    &&& task.field("scope"@) == Some(Json::String("medium"@))
    &&& task.field("risk"@) == Some(Json::String("medium"@))
    &&& task.field("checklist"@) == Some(Json::Array(Seq::empty()))
    &&& task.field("dependencies"@) == Some(Json::Array(Seq::empty()))
    &&& task.field("assignee"@) == Some(Json::Null)
    &&& task.field("deadline"@) == Some(Json::Null)
    &&& task.field("paused"@) == Some(Json::Bool(false))
    &&& task.field("blocked_reason"@) == Some(Json::Null)
    &&& task.field("blocked_by"@) == Some(Json::Null)
    &&& task.field("status"@) == Some(Json::String(status))
    &&& task.field("blocked_at"@) == Some(
        if status == "blocked"@ {
            Json::String(now)
        } else {
            Json::Null
        },
    )
    &&& task.field("cancelled"@) == Some(Json::Bool(status == "cancelled"@))
    &&& task.nested("metadata"@, "created_at"@) == Some(Json::String(now))
    &&& task.nested("metadata"@, "updated_at"@) == Some(Json::String(now))
    &&& task.nested("metadata"@, "updated_by"@) == Some(Json::String("animus.subject.default"@))
    &&& task.nested("metadata"@, "created_by"@) == Some(
        match params.field("created_by"@) {
            Some(Json::String(by)) => Json::String(by),
            _ => Json::String("animus.subject.default"@),
        },
    )
    &&& task.nested("metadata"@, "completed_at"@) == Some(
        if status == "completed"@ || status == "done"@ {
            Json::String(now)
        } else {
            Json::Null
        },
    )
}

/// `task/create` stores the task that the parameters ask for, under the next id.
pub proof fn creation_follows_the_parameters(
    rows: Map<Seq<char>, Json>,
    params: Json,
    title: Seq<char>,
    at: Setting,
)
    requires
        params.text("title"@) == Some(title),
    ensures
        ({
            let id = next_id(at.ids, at.prefix, at.pad);
            let outcome = request(rows, "task/create"@, Some(params), at);
            &&& stores(rows, outcome, id)
            &&& is_asked_for(params, title, id, at.now, (outcome->0).0[id])
        }),
{
    lemma_names();
    each_method_has_its_step(Some(params));
    let id = next_id(at.ids, at.prefix, at.pad);
    let task = drafted(requested_draft(Some(params), title), id, at.now);
    lemma_drafted(params, title, id, at.now);
    lemma_store_step(rows, task, "task create"@);
    assert(rows.insert(id, task).remove(id) =~= rows.remove(id));
}

proof fn lemma_drafted(params: Json, title: Seq<char>, id: Seq<char>, now: Seq<char>)
    ensures
        is_asked_for(
            params,
            title,
            id,
            now,
            drafted(requested_draft(Some(params), title), id, now),
        ),
        drafted(requested_draft(Some(params), title), id, now).text("id"@) == Some(id),
{
    lemma_names();
    strings_of_a_member_are_read(params, "labels"@);
    strings_of_a_member_are_read(params, "linked_requirements"@);
    strings_of_a_member_are_read(params, "linked_architecture_entities"@);
    strings_are_written_in_order(words(params.field("labels"@)));
    strings_are_written_in_order(words(params.field("linked_requirements"@)));
    strings_are_written_in_order(words(params.field("linked_architecture_entities"@)));
}

} // verus!
