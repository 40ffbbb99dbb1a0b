//! Changes to one task.
use crate::clock::{is_utc_time, now_rfc3339};
use crate::methods::kind::{bare_id, strip_kind_prefix};
use crate::methods::patch::{apply_patch_at, apply_plain_patch, in_status, patched, set_status_field};
use crate::rpc::{
    internal, internal_fault, invalid, invalid_fault, not_found, not_found_fault, reply_view, Fault,
    RpcError,
};
use crate::store::crud::{stamp_update, stamped, DEFAULT_ACTOR};
use crate::text::{joined, same, zero_padded, zero_padded_text};
use crate::value::{empty_array, items_view, or_else, string_value, Json, Object, Value};
use vstd::prelude::*;

verus! {

/// A change that is asked of a task.
#[derive(Debug)]
pub enum Change {
    Patch { patch: Value },
    Assign { assignee: String },
    Status { status: String },
    AddChecklistItem { description: String, updated_by: String },
    UpdateChecklistItem { item_id: String, completed: bool, updated_by: String },
    AddDependency { dependency_id: String, dependency_type: String, updated_by: String },
    RemoveDependency { dependency_id: String, updated_by: String },
}

/// The model of a [`Change`].
pub enum ChangeModel {
    Patch { patch: Json },
    Assign { assignee: Seq<char> },
    Status { status: Seq<char> },
    AddChecklistItem { description: Seq<char>, updated_by: Seq<char> },
    UpdateChecklistItem { item_id: Seq<char>, completed: bool, updated_by: Seq<char> },
    AddDependency {
        dependency_id: Seq<char>,
        dependency_type: Seq<char>,
        updated_by: Seq<char>,
    },
    RemoveDependency { dependency_id: Seq<char>, updated_by: Seq<char> },
}

impl Change {
    pub open spec fn view(&self) -> ChangeModel {
        match self {
            Change::Patch { patch } => ChangeModel::Patch { patch: patch@ },
            Change::Assign { assignee } => ChangeModel::Assign { assignee: assignee@ },
            Change::Status { status } => ChangeModel::Status { status: status@ },
            Change::AddChecklistItem {
                description,
                updated_by,
            } => ChangeModel::AddChecklistItem {
                description: description@,
                updated_by: updated_by@,
            },
            Change::UpdateChecklistItem {
                item_id,
                completed,
                updated_by,
            } => ChangeModel::UpdateChecklistItem {
                item_id: item_id@,
                completed: *completed,
                updated_by: updated_by@,
            },
            Change::AddDependency {
                dependency_id,
                dependency_type,
                updated_by,
            } => ChangeModel::AddDependency {
                dependency_id: dependency_id@,
                dependency_type: dependency_type@,
                updated_by: updated_by@,
            },
            Change::RemoveDependency {
                dependency_id,
                updated_by,
            } => ChangeModel::RemoveDependency {
                dependency_id: dependency_id@,
                updated_by: updated_by@,
            },
        }
    }
}

/// The place of the first item whose member `key` is the string `text`.
pub open spec fn first_with(items: Seq<Json>, key: Seq<char>, text: Seq<char>) -> Option<int>
    decreases items.len(),
{
    if items.len() == 0 {
        None
    } else {
        match first_with(items.drop_last(), key, text) {
            Some(i) => Some(i),
            None => if items.last().text(key) == Some(text) {
                Some(items.len() - 1)
            } else {
                None
            },
        }
    }
}

/// A new item of a checklist.
pub open spec fn new_item(number: nat, description: Seq<char>, now: Seq<char>) -> Json {
    Json::Object(
        map![
            "id"@ => Json::String("CL-"@ + zero_padded(number, 3)),
            "description"@ => Json::String(description),
            "completed"@ => Json::Bool(false),
            "created_at"@ => Json::String(now),
            "updated_at"@ => Json::String(now),
        ],
    )
}

/// The task with one more item at the end of its checklist.
pub open spec fn with_checklist_item(
    task: Json,
    description: Seq<char>,
    now: Seq<char>,
) -> Result<Json, Fault> {
    if !(task is Object) {
        Err(internal_fault("task payload not an object"@))
    } else {
        match or_else(task.field("checklist"@), Json::Array(Seq::empty())) {
            Json::Array(items) => Ok(
                task.with(
                    "checklist"@,
                    Json::Array(items.push(new_item(items.len() + 1, description, now))),
                ),
            ),
            _ => Err(internal_fault("task checklist field is not an array"@)),
        }
    }
}

/// The task with an item of its checklist marked.
pub open spec fn with_marked_item(
    task: Json,
    item_id: Seq<char>,
    completed: bool,
    now: Seq<char>,
) -> Result<Json, Fault> {
    match task.items("checklist"@) {
        None => Err(invalid_fault("task has no checklist"@)),
        Some(items) => match first_with(items, "id"@, item_id) {
            None => Err(not_found_fault("checklist item "@ + item_id + " not found"@)),
            Some(i) => Ok(
                task.with(
                    "checklist"@,
                    Json::Array(
                        items.update(
                            i,
                            items[i].with("completed"@, Json::Bool(completed)).with(
                                "updated_at"@,
                                Json::String(now),
                            ),
                        ),
                    ),
                ),
            ),
        },
    }
}

/// A new dependency.
pub open spec fn new_dependency(
    bare: Seq<char>,
    dependency_type: Seq<char>,
    now: Seq<char>,
) -> Json {
    Json::Object(
        map![
            "dependency_id"@ => Json::String(bare),
            "dependency_type"@ => Json::String(dependency_type),
            "added_at"@ => Json::String(now),
        ],
    )
}

/// The task with a dependency at the end of its dependencies, unless it has it already.
pub open spec fn with_dependency(
    task: Json,
    dependency_id: Seq<char>,
    dependency_type: Seq<char>,
    now: Seq<char>,
) -> Result<Json, Fault> {
    let bare = bare_id(dependency_id);
    if !(task is Object) {
        Err(internal_fault("task payload not an object"@))
    } else {
        match or_else(task.field("dependencies"@), Json::Array(Seq::empty())) {
            Json::Array(items) => Ok(
                task.with(
                    "dependencies"@,
                    Json::Array(
                        if first_with(items, "dependency_id"@, bare) is Some {
                            items
                        } else {
                            items.push(new_dependency(bare, dependency_type, now))
                        },
                    ),
                ),
            ),
            _ => Err(internal_fault("dependencies field is not an array"@)),
        }
    }
}

/// The dependencies other than those on `bare`.
pub open spec fn other_dependencies(items: Seq<Json>, bare: Seq<char>) -> Seq<Json> {
    items.filter(|d: Json| d.text("dependency_id"@) != Some(bare))
}

/// The task without the dependencies on one other task.
pub open spec fn without_dependency(task: Json, dependency_id: Seq<char>) -> Json {
    match task.items("dependencies"@) {
        Some(items) => task.with(
            "dependencies"@,
            Json::Array(other_dependencies(items, bare_id(dependency_id))),
        ),
        None => task,
    }
}

/// The task as stamped, where the change was possible.
pub open spec fn stamped_if(
    task: Result<Json, Fault>,
    now: Seq<char>,
    by: Seq<char>,
) -> Result<Json, Fault> {
    match task {
        Ok(t) => Ok(stamped(t, now, by)),
        Err(e) => Err(e),
    }
}

/// The task after a change: a status that a patch gives is dated `patched_at`, everything else
/// `now`.
pub open spec fn changed(
    task: Json,
    change: ChangeModel,
    patched_at: Seq<char>,
    now: Seq<char>,
) -> Result<Json, Fault> {
    match change {
        ChangeModel::Patch { patch } => Ok(
            stamped(patched(task, patch, patched_at), now, "animus.subject.default"@),
        ),
        ChangeModel::Assign { assignee } => Ok(
            stamped(
                task.with("assignee"@, Json::String(assignee)),
                now,
                "animus.subject.default"@,
            ),
        ),
        ChangeModel::Status { status } => Ok(
            stamped(in_status(task, status, now), now, "animus.subject.default"@),
        ),
        ChangeModel::AddChecklistItem { description, updated_by } => stamped_if(
            with_checklist_item(task, description, now),
            now,
            updated_by,
        ),
        ChangeModel::UpdateChecklistItem { item_id, completed, updated_by } => stamped_if(
            with_marked_item(task, item_id, completed, now),
            now,
            updated_by,
        ),
        ChangeModel::AddDependency { dependency_id, dependency_type, updated_by } => stamped_if(
            with_dependency(task, dependency_id, dependency_type, now),
            now,
            updated_by,
        ),
        ChangeModel::RemoveDependency { dependency_id, updated_by } => Ok(
            stamped(without_dependency(task, dependency_id), now, updated_by),
        ),
    }
}

fn place_of(items: &Vec<Value>, key: &str, text: &str) -> (place: Option<usize>)
    ensures
        match place {
            Some(i) => i < items.len() && first_with(items_view(items@), key@, text@) == Some(
                i as int,
            ),
            None => first_with(items_view(items@), key@, text@) is None,
        },
{
    let ghost all = items_view(items@);
    let mut found: Option<usize> = None;
    for i in 0..items.len()
        invariant
            all == items_view(items@),
            match found {
                Some(k) => k < items.len() && first_with(all.take(i as int), key@, text@) == Some(
                    k as int,
                ),
                None => first_with(all.take(i as int), key@, text@) is None,
            },
    {
        assert(all.take(i + 1).drop_last() == all.take(i as int));
        assert(all.take(i + 1).last() == all[i as int]);
        if found.is_none() {
            if let Some(t) = items[i].text(key) {
                if same(t, text) {
                    found = Some(i);
                }
            }
        }
    }
    assert(all.take(all.len() as int) == all);
    found
}

/// Adds an item to the end of the checklist.
pub fn add_checklist_item(task: Value, description: &str, now: &str) -> (outcome: Result<
    Value,
    RpcError,
>)
    ensures
        reply_view(outcome) == with_checklist_item(task@, description@, now@),
{
    let mut task = task;
    if task.as_object().is_none() {
        return Err(internal("task payload not an object"));
    }
    let checklist = match task.get("checklist") {
        Some(v) => v.clone(),
        None => empty_array(),
    };
    match checklist {
        Value::Array(mut items) => {
            let ghost before = items_view(items@);
            let number: u128 = items.len() as u128 + 1;
            let mut item = Object::new();
            item.insert(
                "id",
                Value::String(joined("CL-", zero_padded_text(number, 3).as_str())),
            );
            item.insert("description", string_value(description));
            item.insert("completed", Value::Bool(false));
            item.insert("created_at", string_value(now));
            item.insert("updated_at", string_value(now));
            items.push(Value::Object(item));
            assert(items_view(items@) =~= before.push(
                new_item((before.len() + 1) as nat, description@, now@),
            ));
            task.set("checklist", Value::Array(items));
            Ok(task)
        },
        _ => Err(internal("task checklist field is not an array")),
    }
}

/// Marks the first item of the checklist that has the given id.
pub fn update_checklist_item(
    task: Value,
    item_id: &str,
    completed: bool,
    now: &str,
) -> (outcome: Result<Value, RpcError>)
    ensures
        reply_view(outcome) == with_marked_item(task@, item_id@, completed, now@),
{
    let mut task = task;
    let checklist = match task.get("checklist") {
        Some(v) => v.clone(),
        None => Value::Null,
    };
    match checklist {
        Value::Array(mut items) => {
            let ghost before = items_view(items@);
            match place_of(&items, "id", item_id) {
                None => {
                    let message = joined("checklist item ", item_id);
                    Err(not_found(joined(message.as_str(), " not found").as_str()))
                },
                Some(i) => {
                    let mut item = items[i].clone();
                    item.set("completed", Value::Bool(completed));
                    item.set("updated_at", string_value(now));
                    items.set(i, item);
                    assert(items_view(items@) =~= before.update(i as int, item@));
                    task.set("checklist", Value::Array(items));
                    Ok(task)
                },
            }
        },
        _ => Err(invalid("task has no checklist")),
    }
}

/// Adds a dependency, unless the task has it already.
pub fn add_dependency(
    task: Value,
    dependency_id: &str,
    dependency_type: &str,
    now: &str,
) -> (outcome: Result<Value, RpcError>)
    ensures
        reply_view(outcome) == with_dependency(task@, dependency_id@, dependency_type@, now@),
{
    let mut task = task;
    if task.as_object().is_none() {
        return Err(internal("task payload not an object"));
    }
    let dependencies = match task.get("dependencies") {
        Some(v) => v.clone(),
        None => empty_array(),
    };
    match dependencies {
        Value::Array(mut items) => {
            let ghost before = items_view(items@);
            let bare = strip_kind_prefix(dependency_id);
            if place_of(&items, "dependency_id", bare.as_str()).is_none() {
                let mut dependency = Object::new();
                dependency.insert("dependency_id", string_value(bare.as_str()));
                dependency.insert("dependency_type", string_value(dependency_type));
                dependency.insert("added_at", string_value(now));
                items.push(Value::Object(dependency));
                assert(items_view(items@) =~= before.push(
                    new_dependency(bare@, dependency_type@, now@),
                ));
            }
            task.set("dependencies", Value::Array(items));
            Ok(task)
        },
        _ => Err(internal("dependencies field is not an array")),
    }
}

/// Takes out the dependencies on one other task.
pub fn remove_dependency(task: &mut Value, dependency_id: &str)
    ensures
        final(task)@ == without_dependency(old(task)@, dependency_id@),
{
    let bare = strip_kind_prefix(dependency_id);
    let kept = match task.items("dependencies") {
        Some(items) => {
            let ghost all = items_view(items@);
            let mut kept: Vec<Value> = Vec::new();
            proof {
                reveal(Seq::filter);
                assert(items_view(kept@) =~= other_dependencies(all.take(0), bare@));
            }
            for i in 0..items.len()
                invariant
                    all == items_view(items@),
                    items_view(kept@) == other_dependencies(all.take(i as int), bare@),
            {
                proof {
                    reveal(Seq::filter);
                    assert(all.take(i + 1).drop_last() == all.take(i as int));
                    assert(all.take(i + 1).last() == all[i as int]);
                }
                let other = match items[i].text("dependency_id") {
                    Some(d) => !same(d, bare.as_str()),
                    None => true,
                };
                if other {
                    let ghost before = kept@;
                    kept.push(items[i].clone());
                    assert(items_view(kept@) =~= items_view(before).push(all[i as int]));
                }
            }
            assert(all.take(all.len() as int) == all);
            Some(kept)
        },
        None => None,
    };
    if let Some(kept) = kept {
        task.set("dependencies", Value::Array(kept));
    }
}

fn stamp_if(outcome: Result<Value, RpcError>, now: &str, by: &str) -> (stamped: Result<
    Value,
    RpcError,
>)
    ensures
        reply_view(stamped) == stamped_if(reply_view(outcome), now@, by@),
{
    match outcome {
        Ok(mut task) => {
            stamp_update(&mut task, now, by);
            Ok(task)
        },
        Err(e) => Err(e),
    }
}

/// Makes a change at given times: a status that a patch gives is dated `patched_at`, everything
/// else `now`.
pub fn change_task_at(task: Value, change: &Change, patched_at: &str, now: &str) -> (outcome:
    Result<Value, RpcError>)
    ensures
        reply_view(outcome) == changed(task@, change@, patched_at@, now@),
{
    let mut task = task;
    match change {
        Change::Patch { patch } => {
            apply_patch_at(&mut task, patch, patched_at);
            stamp_update(&mut task, now, DEFAULT_ACTOR);
            Ok(task)
        },
        Change::Assign { assignee } => {
            task.set("assignee", string_value(assignee.as_str()));
            stamp_update(&mut task, now, DEFAULT_ACTOR);
            Ok(task)
        },
        Change::Status { status } => {
            set_status_field(&mut task, status.as_str(), now);
            stamp_update(&mut task, now, DEFAULT_ACTOR);
            Ok(task)
        },
        Change::AddChecklistItem { description, updated_by } => {
            let outcome = add_checklist_item(task, description.as_str(), now);
            stamp_if(outcome, now, updated_by.as_str())
        },
        Change::UpdateChecklistItem { item_id, completed, updated_by } => {
            let outcome = update_checklist_item(task, item_id.as_str(), *completed, now);
            stamp_if(outcome, now, updated_by.as_str())
        },
        Change::AddDependency { dependency_id, dependency_type, updated_by } => {
            let outcome = add_dependency(
                task,
                dependency_id.as_str(),
                dependency_type.as_str(),
                now,
            );
            stamp_if(outcome, now, updated_by.as_str())
        },
        Change::RemoveDependency { dependency_id, updated_by } => {
            remove_dependency(&mut task, dependency_id.as_str());
            stamp_update(&mut task, now, updated_by.as_str());
            Ok(task)
        },
    }
}

/// Makes a change now: the clock is read for the status of a patch, and then for everything else.
pub fn change_task(task: Value, change: &Change) -> (outcome: Result<Value, RpcError>)
    ensures
        exists|patched_at: Seq<char>, now: Seq<char>|
            is_utc_time(patched_at) && is_utc_time(now) && reply_view(outcome)
                == #[trigger] changed(task@, change@, patched_at, now),
{
    match change {
        Change::Patch { patch } => {
            let ghost before = task@;
            let mut task = task;
            apply_plain_patch(&mut task, patch);
            let ghost patched_at = choose|at: Seq<char>|
                is_utc_time(at) && task@ == #[trigger] patched(before, patch@, at);
            let now = now_rfc3339();
            stamp_update(&mut task, now.as_str(), DEFAULT_ACTOR);
            assert(Ok::<Json, Fault>(task@) == changed(before, change@, patched_at, now@));
            Ok(task)
        },
        _ => {
            let now = now_rfc3339();
            change_task_at(task, change, now.as_str(), now.as_str())
        },
    }
}

} // verus!
