//! Which requests are refused, and with which words.
use crate::laws::checklists::lemma_first_with;
use crate::laws::methods::each_method_has_its_step;
use crate::laws::names::lemma_names;
use crate::laws::priorities::trimming_takes_white_space_off_the_ends;
use crate::laws::requests::is_about_one_task;
use crate::laws::verbs::{named_tasks_are_meant, names_task};
use crate::methods::change::{changed, ChangeModel};
use crate::methods::dispatch::{
    after_ids, after_task, after_write, listing_reply, requested_id, DraftModel, ListingModel,
    StepModel, WriteModel,
};
use crate::methods::kind::bare_id;
use crate::rpc::{ErrorCode, Fault};
use crate::store::crud::RowModel;
use crate::store::table::{keyed, request, Setting};
use crate::text::{is_white_space, trimmed};
use crate::value::Json;
use vstd::prelude::*;

verus! {

/// The fault of parameters that cannot be used.
pub open spec fn unusable(message: Seq<char>) -> Fault {
    Fault { code: ErrorCode::InvalidParams, message, data: None }
}

/// The fault of parameters that ask for what is not there.
pub open spec fn absent(message: Seq<char>) -> Fault {
    Fault {
        code: ErrorCode::InvalidParams,
        message,
        data: Some(Json::Object(map!["category"@ => Json::String("not_found"@)])),
    }
}

/// The fault of a request that could not be carried out.
pub open spec fn broken(message: Seq<char>) -> Fault {
    Fault { code: ErrorCode::InternalError, message, data: None }
}

/// Whether a request was refused for a fault and left every task as it was.
pub open spec fn refuses(
    rows: Map<Seq<char>, Json>,
    outcome: Option<(Map<Seq<char>, Json>, Result<Json, Fault>)>,
    fault: Fault,
) -> bool {
    outcome == Some((rows, Err::<Json, Fault>(fault)))
}

/// Whether a text is nothing but white space.
pub open spec fn is_blank(s: Seq<char>) -> bool {
    forall|i: int| 0 <= i < s.len() ==> is_white_space(#[trigger] s[i])
}

/// Blank text is nothing when it is trimmed; white space around any other text goes.
pub proof fn white_space_around_text_goes(before: Seq<char>, s: Seq<char>, after: Seq<char>)
    requires
        is_blank(before),
        is_blank(after),
        s.len() > 0 ==> !is_white_space(s[0]) && !is_white_space(s.last()),
    ensures
        trimmed(before + s + after) == s,
        trimmed(before) == Seq::<char>::empty(),
{
    let whole = before + s + after;
    let ends = trimming_takes_white_space_off_the_ends(whole);
    let blank = trimming_takes_white_space_off_the_ends(before);
    if blank.0 < blank.1 {
        assert(is_white_space(before[blank.0]));
    }
    assert(trimmed(before) =~= Seq::empty());
    if s.len() == 0 {
        if ends.0 < ends.1 {
            if ends.0 < before.len() {
                assert(whole[ends.0] == before[ends.0]);
            } else {
                assert(whole[ends.0] == after[ends.0 - before.len()]);
            }
        }
        assert(trimmed(whole) =~= s);
    } else {
        let first = before.len() as int;
        let last = first + s.len() - 1;
        assert(whole[first] == s[0]);
        assert(whole[last] == s.last());
        assert(ends.0 <= first) by {
            if ends.0 > first {
                assert(is_white_space(whole[first]));
            }
        }
        assert(ends.1 > last) by {
            if ends.1 <= last {
                assert(is_white_space(whole[last]));
            }
        }
        assert(ends.0 >= first) by {
            if ends.0 < first {
                assert(whole[ends.0] == before[ends.0]);
            }
        }
        assert(ends.1 <= last + 1) by {
            if ends.1 > last + 1 {
                assert(whole[ends.1 - 1] == after[ends.1 - 1 - (last + 1)]);
            }
        }
        assert(whole.subrange(first, last + 1) =~= s);
    }
}

/// A task is named by its id or by its wire id, with any white space around it.
pub proof fn names_may_have_white_space_around(
    params: Json,
    before: Seq<char>,
    name: Seq<char>,
    after: Seq<char>,
)
    requires
        params.field("id"@) == Some(Json::String(before + name + after)),
        is_blank(before),
        is_blank(after),
        name.len() > 0,
        !is_white_space(name[0]),
        !is_white_space(name.last()),
    ensures
        requested_id(Some(params)) == Ok::<Seq<char>, Fault>(bare_id(name)),
{
    white_space_around_text_goes(before, name, after);
}

/// A request about one task is refused where its parameters have no string `id`, and where that
/// string is blank.
pub proof fn requests_without_an_id_are_refused(
    rows: Map<Seq<char>, Json>,
    method: Seq<char>,
    params: Option<Json>,
    at: Setting,
)
    requires
        is_about_one_task(method),
    ensures
        params is None ==> refuses(
            rows,
            request(rows, method, params, at),
            unusable("task call requires --id"@),
        ),
        params matches Some(p) ==> (!(p.field("id"@) matches Some(Json::String(_))) ==> refuses(
            rows,
            request(rows, method, params, at),
            unusable("task call requires --id"@),
        )),
        params matches Some(p) ==> (p.field("id"@) matches Some(Json::String(id)) ==> (is_blank(id)
            ==> refuses(
            rows,
            request(rows, method, params, at),
            unusable("task --id must not be empty"@),
        ))),
{
    each_method_has_its_step(params);
    if let Some(p) = params {
        if let Some(Json::String(id)) = p.field("id"@) {
            if is_blank(id) {
                white_space_around_text_goes(id, Seq::empty(), Seq::empty());
            }
        }
    }
}

/// A request about one task is refused where it lacks what its method needs.
pub proof fn requests_without_what_they_need_are_refused(
    rows: Map<Seq<char>, Json>,
    params: Json,
    id: Seq<char>,
    at: Setting,
)
    requires
        names_task(params, id),
    ensures
        !(params.field("assignee"@) matches Some(Json::String(_))) ==> refuses(
            rows,
            request(rows, "task/assign"@, Some(params), at),
            unusable("task assign requires --assignee"@),
        ),
        !(params.field("status"@) matches Some(Json::String(_))) ==> refuses(
            rows,
            request(rows, "task/status"@, Some(params), at),
            unusable("task status requires --status"@),
        ),
        !(params.field("description"@) matches Some(Json::String(_))) ==> refuses(
            rows,
            request(rows, "task/add_checklist_item"@, Some(params), at),
            unusable("task add_checklist_item requires --description"@),
        ),
        !(params.field("item_id"@) matches Some(Json::String(_))) ==> refuses(
            rows,
            request(rows, "task/update_checklist_item"@, Some(params), at),
            unusable("task update_checklist_item requires --item-id"@),
        ),
        (params.field("item_id"@) matches Some(Json::String(_))) && !(params.field(
            "completed"@,
        ) matches Some(Json::Bool(_))) ==> refuses(
            rows,
            request(rows, "task/update_checklist_item"@, Some(params), at),
            unusable("task update_checklist_item requires --completed"@),
        ),
        !(params.field("dependency_id"@) matches Some(Json::String(_))) ==> refuses(
            rows,
            request(rows, "task/add_dependency"@, Some(params), at),
            unusable("task add_dependency requires --dependency-id"@),
        ),
        !(params.field("dependency_id"@) matches Some(Json::String(_))) ==> refuses(
            rows,
            request(rows, "task/remove_dependency"@, Some(params), at),
            unusable("task remove_dependency requires --dependency-id"@),
        ),
{
    named_tasks_are_meant(params, id);
    each_method_has_its_step(Some(params));
}

/// A creation is refused without a title, and a replacement without a task that has an id.
pub proof fn writes_without_what_they_need_are_refused(
    rows: Map<Seq<char>, Json>,
    params: Json,
    at: Setting,
)
    ensures
        refuses(
            rows,
            request(rows, "task/create"@, None, at),
            unusable("task create requires --title"@),
        ),
        !(params.field("title"@) matches Some(Json::String(_))) ==> refuses(
            rows,
            request(rows, "task/create"@, Some(params), at),
            unusable("task create requires --title"@),
        ),
        refuses(
            rows,
            request(rows, "task/replace"@, None, at),
            unusable("task replace requires --task <json>"@),
        ),
        params.field("task"@) is None ==> refuses(
            rows,
            request(rows, "task/replace"@, Some(params), at),
            unusable("task replace requires --task <json>"@),
        ),
        params.field("task"@) matches Some(task) ==> (!(task.field("id"@) matches Some(
            Json::String(_),
        )) ==> refuses(
            rows,
            request(rows, "task/replace"@, Some(params), at),
            unusable("task replace payload missing id"@),
        )),
{
    each_method_has_its_step(None);
    each_method_has_its_step(Some(params));
}

/// Whatever is asked of a task that is not there is refused, and the answer says which task it is.
pub proof fn requests_for_missing_tasks_are_refused(
    rows: Map<Seq<char>, Json>,
    params: Json,
    id: Seq<char>,
    at: Setting,
)
    requires
        names_task(params, id),
        !rows.contains_key(id),
    ensures
        ({
            let fault = absent("task "@ + id + " not found: "@ + ("task not found: "@ + id));
            &&& refuses(rows, request(rows, "task/get"@, Some(params), at), fault)
            &&& refuses(rows, request(rows, "task/update"@, Some(params), at), fault)
            &&& (params.field("assignee"@) matches Some(Json::String(_))) ==> refuses(
                rows,
                request(rows, "task/assign"@, Some(params), at),
                fault,
            )
            &&& (params.field("status"@) matches Some(Json::String(_))) ==> refuses(
                rows,
                request(rows, "task/status"@, Some(params), at),
                fault,
            )
            &&& (params.field("description"@) matches Some(Json::String(_))) ==> refuses(
                rows,
                request(rows, "task/add_checklist_item"@, Some(params), at),
                fault,
            )
            &&& (params.field("item_id"@) matches Some(Json::String(_))) && (params.field(
                "completed"@,
            ) matches Some(Json::Bool(_))) ==> refuses(
                rows,
                request(rows, "task/update_checklist_item"@, Some(params), at),
                fault,
            )
            &&& (params.field("dependency_id"@) matches Some(Json::String(_))) ==> refuses(
                rows,
                request(rows, "task/add_dependency"@, Some(params), at),
                fault,
            ) && refuses(rows, request(rows, "task/remove_dependency"@, Some(params), at), fault)
        }),
{
    named_tasks_are_meant(params, id);
    each_method_has_its_step(Some(params));
}

/// Items are neither added to a checklist that is no array nor marked where there is none or where
/// no item has the id; dependencies that are no array take none.
pub proof fn impossible_changes_are_refused(
    rows: Map<Seq<char>, Json>,
    params: Json,
    id: Seq<char>,
    text: Seq<char>,
    completed: bool,
    at: Setting,
)
    requires
        keyed(rows),
        rows.contains_key(id),
        names_task(params, id),
    ensures
        params.field("description"@) == Some(Json::String(text)) && (rows[id].field(
            "checklist"@,
        ) matches Some(checklist) && !(checklist is Array)) ==> refuses(
            rows,
            request(rows, "task/add_checklist_item"@, Some(params), at),
            broken("task checklist field is not an array"@),
        ),
        params.field("item_id"@) == Some(Json::String(text)) && params.field("completed"@) == Some(
            Json::Bool(completed),
        ) && !(rows[id].field("checklist"@) matches Some(Json::Array(_))) ==> refuses(
            rows,
            request(rows, "task/update_checklist_item"@, Some(params), at),
            unusable("task has no checklist"@),
        ),
        params.field("item_id"@) == Some(Json::String(text)) && params.field("completed"@) == Some(
            Json::Bool(completed),
        ) && (rows[id].field("checklist"@) matches Some(Json::Array(items)) && forall|i: int|
            0 <= i < items.len() ==> (#[trigger] items[i]).field("id"@) != Some(Json::String(text)))
            ==> refuses(
            rows,
            request(rows, "task/update_checklist_item"@, Some(params), at),
            absent("checklist item "@ + text + " not found"@),
        ),
        params.field("dependency_id"@) == Some(Json::String(text)) && (rows[id].field(
            "dependencies"@,
        ) matches Some(dependencies) && !(dependencies is Array)) ==> refuses(
            rows,
            request(rows, "task/add_dependency"@, Some(params), at),
            broken("dependencies field is not an array"@),
        ),
{
    lemma_names();
    named_tasks_are_meant(params, id);
    each_method_has_its_step(Some(params));
    if let Some(Json::Array(items)) = rows[id].field("checklist"@) {
        lemma_first_with(items, "id"@, text);
    }
}

/// Whether a change says in the action that it is stored for which request it is.
pub open spec fn acts(change: ChangeModel, action: Seq<char>) -> bool {
    match change {
        ChangeModel::Patch { .. } => action == "task update"@,
        ChangeModel::Assign { .. } => action == "task assign"@,
        ChangeModel::Status { .. } => action == "task set_status"@,
        ChangeModel::AddChecklistItem { .. } => action == "task add_checklist_item"@,
        ChangeModel::UpdateChecklistItem { .. } => action == "task update_checklist_item"@,
        ChangeModel::AddDependency { .. } => action == "task add_dependency"@,
        ChangeModel::RemoveDependency { .. } => action == "task remove_dependency"@,
    }
}

/// A table that cannot answer is reported: what it said comes after the words for what failed.
pub proof fn failures_of_the_table_are_reported(
    listing: ListingModel,
    draft: DraftModel,
    id: Seq<char>,
    change: Option<ChangeModel>,
    task: Json,
    row: RowModel,
    action: Seq<char>,
    reason: Seq<char>,
    at: Setting,
)
    ensures
        listing_reply(listing, Err(reason)) == Err::<Json, Fault>(
            broken("task list"@ + " failed: "@ + reason),
        ),
        after_ids(draft, Err(reason), at.prefix, at.pad, at.now) == StepModel::Reply(
            Err(broken("id generation"@ + " failed: "@ + reason)),
        ),
        after_task(id, change, Err(reason), at.patched_at, at.now) == StepModel::Reply(
            Err(absent("task "@ + id + " not found: "@ + reason)),
        ),
        after_write(WriteModel::Upsert { task, row, action }, Err(reason)) == Err::<Json, Fault>(
            broken(action + " failed: "@ + reason),
        ),
        after_write(WriteModel::Delete { id }, Err(reason)) == Err::<Json, Fault>(
            broken("task delete"@ + " failed: "@ + reason),
        ),
{
}

/// A changed task is stored under the id of its payload, for the action that the change is; where
/// the change took the id away, nothing is stored.
pub proof fn changes_are_stored_for_their_action(
    id: Seq<char>,
    change: ChangeModel,
    task: Json,
    action: Seq<char>,
    at: Setting,
)
    requires
        acts(change, action),
    ensures
        changed(task, change, at.patched_at, at.now) matches Ok(after) ==> match after.field(
            "id"@,
        ) {
            Some(Json::String(own)) => after_task(
                id,
                Some(change),
                Ok(task),
                at.patched_at,
                at.now,
            ) matches StepModel::Write(WriteModel::Upsert { task: stored, row, action: said })
                && stored == after && row.id == own && said == action,
            _ => after_task(id, Some(change), Ok(task), at.patched_at, at.now) == StepModel::Reply(
                Err(broken(action + " failed: "@ + "task json missing id"@)),
            ),
        },
{
}

} // verus!
