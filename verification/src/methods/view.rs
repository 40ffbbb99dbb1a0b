//! The subject that a task is shown as.
use crate::methods::kind::{add_kind_prefix, wire_id, TASK_KIND};
use crate::text::same;
use crate::value::{empty_array, or_else, string_value, Json, JsonNumber, Number, Object, Value};
use vstd::prelude::*;

verus! {

/// The normalized status of a native one. Statuses without a place of their own count as ready.
pub open spec fn normalized(native: Seq<char>) -> Seq<char> {
    if native == "in-progress"@ || native == "in_progress"@ {
        "in-progress"@
    } else if native == "blocked"@ {
        "blocked"@
    } else if native == "done"@ || native == "completed"@ {
        "done"@
    } else if native == "cancelled"@ {
        "cancelled"@
    } else {
        "ready"@
    }
}

/// Maps a native task status to a normalized subject status.
pub fn normalize_status(native: &str) -> (status: &'static str)
    ensures
        status@ == normalized(native@),
{
    if same(native, "in-progress") || same(native, "in_progress") {
        "in-progress"
    } else if same(native, "blocked") {
        "blocked"
    } else if same(native, "done") || same(native, "completed") {
        "done"
    } else if same(native, "cancelled") {
        "cancelled"
    } else {
        "ready"
    }
}

/// The bucket from 1 (low) to 4 (critical) that a priority is shown in; a priority that is not
/// known is shown as medium.
pub open spec fn priority_bucket(priority: Seq<char>) -> u64 {
    if priority == "critical"@ {
        4
    } else if priority == "high"@ {
        3
    } else if priority == "medium"@ {
        2
    } else if priority == "low"@ {
        1
    } else {
        2
    }
}

/// The native status of a task.
pub open spec fn native_status(task: Json) -> Seq<char> {
    or_else(task.text("status"@), "backlog"@)
}

/// The subject that a task is shown as.
pub open spec fn subject_of(task: Json) -> Json {
    Json::Object(
        map![
            "id"@ => Json::String(wire_id(or_else(task.text("id"@), ""@))),
            "kind"@ => Json::String("task"@),
            "title"@ => or_else(task.field("title"@), Json::String(""@)),
            "description"@ => or_else(task.field("description"@), Json::String(""@)),
            "status"@ => Json::String(normalized(native_status(task))),
            "native_status"@ => Json::String(native_status(task)),
            "priority"@ => Json::Number(
                JsonNumber::PosInt(priority_bucket(or_else(task.text("priority"@), "medium"@))),
            ),
            "labels"@ => or_else(task.field("tags"@), Json::Array(Seq::empty())),
            "custom"@ => custom_of(task),
            "created_at"@ => or_else(task.nested("metadata"@, "created_at"@), Json::Null),
            "updated_at"@ => or_else(task.nested("metadata"@, "updated_at"@), Json::Null),
        ],
    )
}

/// The custom block of the subject that a task is shown as.
pub open spec fn custom_of(task: Json) -> Json {
    Json::Object(
        map![
            "type"@ => Json::String(or_else(task.text("task_type"@), "feature"@)),
            "risk"@ => Json::String(or_else(task.text("risk"@), "medium"@)),
            "scope"@ => Json::String(or_else(task.text("scope"@), "medium"@)),
            "paused"@ => Json::Bool(or_else(task.flag("paused"@), false)),
            "cancelled"@ => Json::Bool(or_else(task.flag("cancelled"@), false)),
            "deadline"@ => or_else(task.field("deadline"@), Json::Null),
            "assignee"@ => or_else(task.field("assignee"@), Json::Null),
            "checklist"@ => or_else(task.field("checklist"@), Json::Array(Seq::empty())),
            "dependencies"@ => or_else(task.field("dependencies"@), Json::Array(Seq::empty())),
            "blocked_at"@ => or_else(task.field("blocked_at"@), Json::Null),
            "blocked_reason"@ => or_else(task.field("blocked_reason"@), Json::Null),
            "blocked_by"@ => or_else(task.field("blocked_by"@), Json::Null),
            "linked_requirements"@ => or_else(
                task.field("linked_requirements"@),
                Json::Array(Seq::empty()),
            ),
            "linked_architecture_entities"@ => or_else(
                task.field("linked_architecture_entities"@),
                Json::Array(Seq::empty()),
            ),
            "raw_status"@ => Json::String(native_status(task)),
        ],
    )
}

fn field_or_null(task: &Value, key: &str) -> (value: Value)
    ensures
        value@ == or_else(task@.field(key@), Json::Null),
{
    match task.get(key) {
        Some(v) => v.clone(),
        None => Value::Null,
    }
}

fn field_or_array(task: &Value, key: &str) -> (value: Value)
    ensures
        value@ == or_else(task@.field(key@), Json::Array(Seq::empty())),
{
    match task.get(key) {
        Some(v) => v.clone(),
        None => empty_array(),
    }
}

fn field_or_empty(task: &Value, key: &str) -> (value: Value)
    ensures
        value@ == or_else(task@.field(key@), Json::String(""@)),
{
    match task.get(key) {
        Some(v) => v.clone(),
        None => string_value(""),
    }
}

fn nested_or_null(task: &Value, outer: &str, inner: &str) -> (value: Value)
    ensures
        value@ == or_else(task@.nested(outer@, inner@), Json::Null),
{
    match task.nested(outer, inner) {
        Some(v) => v.clone(),
        None => Value::Null,
    }
}

/// The member `key`, where it is a string, and `default` otherwise.
pub fn text_or<'a>(task: &'a Value, key: &str, default: &'a str) -> (s: &'a str)
    ensures
        s@ == or_else(task@.text(key@), default@),
{
    match task.text(key) {
        Some(s) => s,
        None => default,
    }
}

fn flag_or_false(task: &Value, key: &str) -> (value: Value)
    ensures
        value@ == Json::Bool(or_else(task@.flag(key@), false)),
{
    match task.flag(key) {
        Some(b) => Value::Bool(b),
        None => Value::Bool(false),
    }
}

fn bucket_number(priority: &str) -> (n: u64)
    ensures
        n == priority_bucket(priority@),
{
    if same(priority, "critical") {
        4
    } else if same(priority, "high") {
        3
    } else if same(priority, "medium") {
        2
    } else if same(priority, "low") {
        1
    } else {
        2
    }
}

fn custom_view(task: &Value) -> (custom: Object)
    ensures
        Json::Object(custom@) == custom_of(task@),
{
    let mut custom = Object::new();
    custom.insert("type", string_value(text_or(task, "task_type", "feature")));
    custom.insert("risk", string_value(text_or(task, "risk", "medium")));
    custom.insert("scope", string_value(text_or(task, "scope", "medium")));
    custom.insert("paused", flag_or_false(task, "paused"));
    custom.insert("cancelled", flag_or_false(task, "cancelled"));
    custom.insert("deadline", field_or_null(task, "deadline"));
    custom.insert("assignee", field_or_null(task, "assignee"));
    custom.insert("checklist", field_or_array(task, "checklist"));
    custom.insert("dependencies", field_or_array(task, "dependencies"));
    custom.insert("blocked_at", field_or_null(task, "blocked_at"));
    custom.insert("blocked_reason", field_or_null(task, "blocked_reason"));
    custom.insert("blocked_by", field_or_null(task, "blocked_by"));
    custom.insert("linked_requirements", field_or_array(task, "linked_requirements"));
    custom.insert(
        "linked_architecture_entities",
        field_or_array(task, "linked_architecture_entities"),
    );
    custom.insert("raw_status", string_value(text_or(task, "status", "backlog")));
    custom
}

/// Projects a task payload onto the subject shape that every backend shares.
pub fn subject_view(task: &Value) -> (subject: Value)
    ensures
        subject@ == subject_of(task@),
{
    let native = text_or(task, "status", "backlog");
    let mut subject = Object::new();
    subject.insert("id", Value::String(add_kind_prefix(text_or(task, "id", ""))));
    subject.insert("kind", string_value(TASK_KIND));
    subject.insert("title", field_or_empty(task, "title"));
    subject.insert("description", field_or_empty(task, "description"));
    subject.insert("status", string_value(normalize_status(native)));
    subject.insert("native_status", string_value(native));
    subject.insert(
        "priority",
        Value::Number(Number::PosInt(bucket_number(text_or(task, "priority", "medium")))),
    );
    subject.insert("labels", field_or_array(task, "tags"));
    subject.insert("custom", Value::Object(custom_view(task)));
    subject.insert("created_at", nested_or_null(task, "metadata", "created_at"));
    subject.insert("updated_at", nested_or_null(task, "metadata", "updated_at"));
    Value::Object(subject)
}

} // verus!
