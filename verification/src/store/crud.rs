//! Task payloads and the table row that each of them is stored under.
use crate::text::{joined, str_view, string_view};
use crate::value::{
    empty_array, json_strings, or_else, string_value, string_views, strings_value, Json, Object,
    Value,
};
use vstd::prelude::*;

verus! {

/// Who a change is ascribed to where the caller names nobody.
pub const DEFAULT_ACTOR: &'static str = "animus.subject.default";

/// The payload of a new task.
pub open spec fn new_task(
    id: Seq<char>,
    title: Seq<char>,
    description: Seq<char>,
    priority: Option<Seq<char>>,
    task_type: Option<Seq<char>>,
    tags: Seq<Seq<char>>,
    created_by: Option<Seq<char>>,
    linked_requirements: Seq<Seq<char>>,
    linked_architecture_entities: Seq<Seq<char>>,
    now: Seq<char>,
) -> Json {
    Json::Object(
        map![
            "id"@ => Json::String(id),
            "title"@ => Json::String(title),
            "description"@ => Json::String(description),
            "status"@ => Json::String("backlog"@),
            "priority"@ => Json::String(or_else(priority, "medium"@)),
            "task_type"@ => Json::String(or_else(task_type, "feature"@)),
            "scope"@ => Json::String("medium"@),
            "risk"@ => Json::String("medium"@),
            "tags"@ => json_strings(tags),
            "linked_requirements"@ => json_strings(linked_requirements),
            "linked_architecture_entities"@ => json_strings(linked_architecture_entities),
            "checklist"@ => Json::Array(Seq::empty()),
            "dependencies"@ => Json::Array(Seq::empty()),
            "assignee"@ => Json::Null,
            "paused"@ => Json::Bool(false),
            "cancelled"@ => Json::Bool(false),
            "blocked_at"@ => Json::Null,
            "blocked_reason"@ => Json::Null,
            "blocked_by"@ => Json::Null,
            "deadline"@ => Json::Null,
            "metadata"@ => new_metadata(created_by, now),
        ],
    )
}

/// The bookkeeping of a new task.
pub open spec fn new_metadata(created_by: Option<Seq<char>>, now: Seq<char>) -> Json {
    Json::Object(
        map![
            "created_at"@ => Json::String(now),
            "updated_at"@ => Json::String(now),
            "created_by"@ => Json::String(or_else(created_by, "animus.subject.default"@)),
            "updated_by"@ => Json::String("animus.subject.default"@),
            "completed_at"@ => Json::Null,
        ],
    )
}

/// Builds the payload of a new task.
///
/// The status is `backlog`; the priority is `medium` and the type `feature` where none is given;
/// scope and risk are `medium`.
pub fn build_new_task(
    id: String,
    title: String,
    description: String,
    priority: Option<String>,
    task_type: Option<String>,
    tags: Vec<String>,
    created_by: Option<String>,
    linked_requirements: Vec<String>,
    linked_architecture_entities: Vec<String>,
    now: &str,
) -> (task: Value)
    ensures
        task@ == new_task(
            id@,
            title@,
            description@,
            string_view(priority),
            string_view(task_type),
            string_views(tags@),
            string_view(created_by),
            string_views(linked_requirements@),
            string_views(linked_architecture_entities@),
            now@,
        ),
{
    let mut task = Object::new();
    task.insert("id", Value::String(id));
    task.insert("title", Value::String(title));
    task.insert("description", Value::String(description));
    task.insert("status", string_value("backlog"));
    task.insert(
        "priority",
        match priority {
            Some(p) => Value::String(p),
            None => string_value("medium"),
        },
    );
    task.insert(
        "task_type",
        match task_type {
            Some(t) => Value::String(t),
            None => string_value("feature"),
        },
    );
    task.insert("scope", string_value("medium"));
    task.insert("risk", string_value("medium"));
    task.insert("tags", strings_value(&tags));
    task.insert("linked_requirements", strings_value(&linked_requirements));
    task.insert("linked_architecture_entities", strings_value(&linked_architecture_entities));
    task.insert("checklist", empty_array());
    task.insert("dependencies", empty_array());
    task.insert("assignee", Value::Null);
    task.insert("paused", Value::Bool(false));
    task.insert("cancelled", Value::Bool(false));
    task.insert("blocked_at", Value::Null);
    task.insert("blocked_reason", Value::Null);
    task.insert("blocked_by", Value::Null);
    task.insert("deadline", Value::Null);

    let mut metadata = Object::new();
    metadata.insert("created_at", string_value(now));
    metadata.insert("updated_at", string_value(now));
    metadata.insert(
        "created_by",
        match created_by {
            Some(c) => Value::String(c),
            None => string_value(DEFAULT_ACTOR),
        },
    );
    metadata.insert("updated_by", string_value(DEFAULT_ACTOR));
    metadata.insert("completed_at", Value::Null);
    task.insert("metadata", Value::Object(metadata));

    Value::Object(task)
}

/// The task with its bookkeeping stamped; the bookkeeping is made where there is none.
pub open spec fn stamped(task: Json, now: Seq<char>, updated_by: Seq<char>) -> Json {
    task.with(
        "metadata"@,
        or_else(task.field("metadata"@), Json::Object(Map::empty())).with(
            "updated_at"@,
            Json::String(now),
        ).with("updated_by"@, Json::String(updated_by)),
    )
}

/// Stamps `metadata.updated_at` and `metadata.updated_by` after a change.
pub fn stamp_update(task: &mut Value, now: &str, updated_by: &str)
    ensures
        final(task)@ == stamped(old(task)@, now@, updated_by@),
{
    let mut metadata = match task.get("metadata") {
        Some(m) => m.clone(),
        None => Value::Object(Object::new()),
    };
    metadata.set("updated_at", string_value(now));
    metadata.set("updated_by", string_value(updated_by));
    task.set("metadata", metadata);
}

/// The lookup columns that stand beside the payload in a table row.
#[derive(Debug)]
pub struct TaskRow {
    pub id: String,
    pub status: String,
    pub title: Option<String>,
    pub priority: Option<String>,
    pub task_type: Option<String>,
    pub updated_at: Option<String>,
    pub completed_at: Option<String>,
    pub blocked_reason: Option<String>,
    pub blocked_at: Option<String>,
}

/// The model of a [`TaskRow`].
pub struct RowModel {
    pub id: Seq<char>,
    pub status: Seq<char>,
    pub title: Option<Seq<char>>,
    pub priority: Option<Seq<char>>,
    pub task_type: Option<Seq<char>>,
    pub updated_at: Option<Seq<char>>,
    pub completed_at: Option<Seq<char>>,
    pub blocked_reason: Option<Seq<char>>,
    pub blocked_at: Option<Seq<char>>,
}

impl TaskRow {
    pub open spec fn view(&self) -> RowModel {
        RowModel {
            id: self.id@,
            status: self.status@,
            title: string_view(self.title),
            priority: string_view(self.priority),
            task_type: string_view(self.task_type),
            updated_at: string_view(self.updated_at),
            completed_at: string_view(self.completed_at),
            blocked_reason: string_view(self.blocked_reason),
            blocked_at: string_view(self.blocked_at),
        }
    }
}

/// The text of an optional document, where it is a string.
pub open spec fn text_of(found: Option<Json>) -> Option<Seq<char>> {
    match found {
        Some(v) => v.as_str(),
        None => None,
    }
}

/// The row of a task whose payload has the id `id`.
pub open spec fn row_model(task: Json, id: Seq<char>) -> RowModel {
    RowModel {
        id,
        status: or_else(task.text("status"@), "backlog"@),
        title: task.text("title"@),
        priority: task.text("priority"@),
        task_type: task.text("task_type"@),
        updated_at: text_of(task.nested("metadata"@, "updated_at"@)),
        completed_at: text_of(task.nested("metadata"@, "completed_at"@)),
        blocked_reason: task.text("blocked_reason"@),
        blocked_at: task.text("blocked_at"@),
    }
}

fn owned(s: Option<&str>) -> (o: Option<String>)
    ensures
        string_view(o) == str_view(s),
{
    match s {
        Some(s) => Some(s.to_string()),
        None => None,
    }
}

fn nested_text(task: &Value, outer: &str, inner: &str) -> (o: Option<String>)
    ensures
        string_view(o) == text_of(task@.nested(outer@, inner@)),
{
    match task.nested(outer, inner) {
        Some(v) => owned(v.as_str()),
        None => None,
    }
}

/// The row that a task is stored under, or `None` where its payload has no string `id`.
pub fn task_row(task: &Value) -> (row: Option<TaskRow>)
    ensures
        match row {
            Some(row) => {
                &&& task@.text("id"@) == Some(row@.id)
                &&& row@ == row_model(task@, row@.id)
            },
            None => task@.text("id"@) is None,
        },
{
    match task.text("id") {
        None => None,
        Some(id) => Some(
            TaskRow {
                id: id.to_string(),
                status: match task.text("status") {
                    Some(s) => s.to_string(),
                    None => "backlog".to_string(),
                },
                title: owned(task.text("title")),
                priority: owned(task.text("priority")),
                task_type: owned(task.text("task_type")),
                updated_at: nested_text(task, "metadata", "updated_at"),
                completed_at: nested_text(task, "metadata", "completed_at"),
                blocked_reason: owned(task.text("blocked_reason")),
                blocked_at: owned(task.text("blocked_at")),
            },
        ),
    }
}

/// What is said where no row has the id.
pub fn missing_task(id: &str) -> (message: String)
    ensures
        message@ == "task not found: "@ + id@,
{
    joined("task not found: ", id)
}

/// What is said where the row of a task could not be written.
pub fn upsert_failure(id: &str) -> (message: String)
    ensures
        message@ == "failed to upsert task "@ + id@,
{
    joined("failed to upsert task ", id)
}

} // verus!
