//! Requests of the task surface, on a table in memory.
use animus_subject_default::backend::{announced_deletion, delete, deleted, ChangeKind};
use animus_subject_default::methods::dispatch::{
    answer_listing, create_task, create_task_at, next_task_id, patch_value, require_id, resume_task,
    resume_task_at, settle, try_dispatch, Listing, Step, Write,
};
use animus_subject_default::methods::strip_kind_prefix;
use animus_subject_default::rpc::{ErrorCode, RpcError};
use animus_subject_default::server::{route, Route};
use animus_subject_default::store::crud::{
    build_new_task, missing_task, task_row, upsert_failure, TaskRow,
};
use animus_subject_default::value::{Number, Object, Value};
use serde_json::Value as Json;

fn from_json(json: &Json) -> Value {
    match json {
        Json::Null => Value::Null,
        Json::Bool(b) => Value::Bool(*b),
        Json::Number(n) => Value::Number(match (n.as_u64(), n.as_i64()) {
            (Some(n), _) => Number::PosInt(n),
            (None, Some(n)) => Number::NegInt(n),
            (None, None) => Number::Float(n.to_string()),
        }),
        Json::String(s) => Value::String(s.clone()),
        Json::Array(items) => Value::Array(items.iter().map(from_json).collect()),
        Json::Object(members) => {
            let mut object = Object::new();
            for (key, member) in members {
                object.insert(key, from_json(member));
            }
            Value::Object(object)
        }
    }
}

fn to_json(value: &Value) -> Json {
    match value {
        Value::Null => Json::Null,
        Value::Bool(b) => Json::Bool(*b),
        Value::Number(Number::PosInt(n)) => Json::from(*n),
        Value::Number(Number::NegInt(n)) => Json::from(*n),
        Value::Number(Number::Float(text)) => Json::from(text.parse::<f64>().unwrap()),
        Value::String(s) => Json::String(s.clone()),
        Value::Array(items) => Json::Array(items.iter().map(to_json).collect()),
        Value::Object(object) => Json::Object(
            (0..object.len())
                .map(|i| (object.key_at(i).to_string(), to_json(object.value_at(i))))
                .collect(),
        ),
    }
}

fn json(text: &str) -> Json {
    serde_json::from_str(text).unwrap()
}

fn value(text: &str) -> Value {
    from_json(&json(text))
}

struct Table {
    conn: rusqlite::Connection,
}

impl Table {
    fn fresh() -> Table {
        let conn = rusqlite::Connection::open_in_memory().unwrap();
        conn.execute_batch(
            "CREATE TABLE tasks (
                id TEXT PRIMARY KEY,
                status TEXT NOT NULL,
                title TEXT,
                priority TEXT,
                task_type TEXT,
                updated_at TEXT,
                completed_at TEXT,
                blocked_reason TEXT,
                blocked_at TEXT,
                json TEXT NOT NULL
            );",
        )
        .unwrap();
        Table { conn }
    }

    fn list_all(&self) -> Result<Vec<Value>, String> {
        let mut stmt = self
            .conn
            .prepare("SELECT json FROM tasks ORDER BY id")
            .map_err(|e| e.to_string())?;
        let rows = stmt
            .query_map([], |row| row.get::<_, String>(0))
            .map_err(|e| e.to_string())?
            .map(|raw| value(&raw.unwrap()))
            .collect();
        Ok(rows)
    }

    fn ids(&self) -> Result<Vec<String>, String> {
        let mut stmt = self
            .conn
            .prepare("SELECT id FROM tasks")
            .map_err(|e| e.to_string())?;
        let rows = stmt
            .query_map([], |row| row.get::<_, String>(0))
            .map_err(|e| e.to_string())?
            .map(|id| id.unwrap())
            .collect();
        Ok(rows)
    }

    fn get(&self, id: &str) -> Result<Value, String> {
        self.conn
            .query_row("SELECT json FROM tasks WHERE id = ?1", [id], |row| {
                row.get::<_, String>(0)
            })
            .map(|raw| value(&raw))
            .map_err(|_| missing_task(id))
    }

    fn upsert(&self, task: &Value, row: &TaskRow) -> Result<bool, String> {
        self.conn
            .execute(
                "INSERT OR REPLACE INTO tasks VALUES (?1, ?2, ?3, ?4, ?5, ?6, ?7, ?8, ?9, ?10)",
                (
                    &row.id,
                    &row.status,
                    &row.title,
                    &row.priority,
                    &row.task_type,
                    &row.updated_at,
                    &row.completed_at,
                    &row.blocked_reason,
                    &row.blocked_at,
                    to_json(task).to_string(),
                ),
            )
            .map(|_| false)
            .map_err(|_| upsert_failure(&row.id))
    }

    fn delete(&self, id: &str) -> Result<bool, String> {
        self.conn
            .execute("DELETE FROM tasks WHERE id = ?1", [id])
            .map(|n| n > 0)
            .map_err(|e| e.to_string())
    }

    fn call(&self, method: &str, params: Option<Json>) -> Option<Result<Json, RpcError>> {
        let params = params.as_ref().map(from_json);
        let step = match try_dispatch(method, &params)? {
            Step::ReadAll(listing) => Step::Reply(answer_listing(&listing, &self.list_all())),
            Step::ReadIds(draft) => create_task(draft, &self.ids(), "TASK-", 3),
            Step::ReadTask { id, change } => resume_task(&id, &change, self.get(&id)),
            step => step,
        };
        let reply = match step {
            Step::Reply(reply) => reply,
            Step::Write(write) => {
                let stored = match &write {
                    Write::Upsert { task, row, .. } => self.upsert(task, row),
                    Write::Delete { id } => self.delete(id),
                };
                settle(&write, &stored)
            }
            _ => panic!("a request takes one read"),
        };
        Some(reply.map(|v| to_json(&v)))
    }

    fn ok(&self, method: &str, params: &str) -> Json {
        self.call(method, Some(json(params))).unwrap().unwrap()
    }

    fn err(&self, method: &str, params: &str) -> (ErrorCode, String, Option<Json>) {
        let error = self.call(method, Some(json(params))).unwrap().unwrap_err();
        (error.code, error.message, error.data.as_ref().map(to_json))
    }

    fn task(&self, id: &str) -> Json {
        to_json(&self.get(&strip_kind_prefix(id)).unwrap())
    }

    fn column(&self, id: &str, name: &str) -> Option<String> {
        self.conn
            .query_row(
                &format!("SELECT {name} FROM tasks WHERE id = ?1"),
                [id],
                |row| row.get(0),
            )
            .unwrap()
    }
}

fn text<'a>(json: &'a Json, key: &str) -> Option<&'a str> {
    json.get(key).and_then(Json::as_str)
}

fn id_of(json: &Json) -> String {
    text(json, "id").unwrap().to_string()
}

fn invalid(message: &str) -> (ErrorCode, String, Option<Json>) {
    (ErrorCode::InvalidParams, message.to_string(), None)
}

fn internal(message: &str) -> (ErrorCode, String, Option<Json>) {
    (ErrorCode::InternalError, message.to_string(), None)
}

fn not_found(message: &str) -> (ErrorCode, String, Option<Json>) {
    (
        ErrorCode::InvalidParams,
        message.to_string(),
        Some(json(r#"{"category":"not_found"}"#)),
    )
}

fn seed(table: &Table, text: &str) {
    let task = value(text);
    let row = task_row(&task).unwrap();
    table.upsert(&task, &row).unwrap();
}

// ---------------------------------------------------------------------
// The table
// ---------------------------------------------------------------------

#[test]
fn upsert_and_get_round_trip() {
    let table = Table::fresh();
    let task = build_new_task(
        "TASK-001".into(),
        "Ship".into(),
        "Body".into(),
        None,
        None,
        vec![],
        None,
        vec![],
        vec![],
        "2026-05-23T00:00:00Z",
    );
    table.upsert(&task, &task_row(&task).unwrap()).unwrap();
    let back = to_json(&table.get("TASK-001").unwrap());
    assert_eq!(text(&back, "title"), Some("Ship"));
    assert_eq!(text(&back, "status"), Some("backlog"));
}

#[test]
fn next_id_increments() {
    let table = Table::fresh();
    let id1 = next_task_id(&table.ids().unwrap(), "TASK-", 3);
    assert_eq!(id1, "TASK-001");
    let t1 = build_new_task(
        id1.clone(),
        "a".into(),
        String::new(),
        None,
        None,
        vec![],
        None,
        vec![],
        vec![],
        "n",
    );
    table.upsert(&t1, &task_row(&t1).unwrap()).unwrap();
    let id2 = next_task_id(&table.ids().unwrap(), "TASK-", 3);
    assert_eq!(id2, "TASK-002");
}

#[test]
fn delete_returns_false_when_missing() {
    let table = Table::fresh();
    assert!(!table.delete("TASK-999").unwrap());
    let reply = table.ok("task/delete", r#"{"id":"TASK-999"}"#);
    assert_eq!(reply, json(r#"{"id":"task:TASK-999","deleted":false}"#));
}

#[test]
fn new_tasks_have_the_whole_payload() {
    let task = build_new_task(
        "T1".into(),
        "Title".into(),
        "Body".into(),
        Some("high".into()),
        Some("bug".into()),
        vec!["a".into()],
        Some("me".into()),
        vec!["R1".into()],
        vec!["E1".into(), "E2".into()],
        "now",
    );
    assert_eq!(
        to_json(&task),
        json(
            r#"{
                "id": "T1", "title": "Title", "description": "Body", "status": "backlog",
                "priority": "high", "task_type": "bug", "scope": "medium", "risk": "medium",
                "tags": ["a"], "linked_requirements": ["R1"],
                "linked_architecture_entities": ["E1", "E2"], "checklist": [], "dependencies": [],
                "assignee": null, "paused": false, "cancelled": false, "blocked_at": null,
                "blocked_reason": null, "blocked_by": null, "deadline": null,
                "metadata": {
                    "created_at": "now", "updated_at": "now", "created_by": "me",
                    "updated_by": "animus.subject.default", "completed_at": null
                }
            }"#
        )
    );
    let plain = build_new_task(
        "T1".into(),
        "".into(),
        "".into(),
        None,
        None,
        vec![],
        None,
        vec![],
        vec![],
        "now",
    );
    let plain = to_json(&plain);
    assert_eq!(text(&plain, "priority"), Some("medium"));
    assert_eq!(text(&plain, "task_type"), Some("feature"));
    assert_eq!(
        plain.pointer("/metadata/created_by").and_then(Json::as_str),
        Some("animus.subject.default")
    );
}

#[test]
fn rows_hold_the_lookup_columns() {
    let task = value(
        r#"{"id":"x","status":"blocked","title":"t","priority":"low","task_type":"bug",
            "blocked_reason":"r","blocked_at":"b","metadata":{"updated_at":"u","completed_at":"c"}}"#,
    );
    let row = task_row(&task).unwrap();
    assert_eq!(row.id, "x");
    assert_eq!(row.status, "blocked");
    assert_eq!(row.title.as_deref(), Some("t"));
    assert_eq!(row.priority.as_deref(), Some("low"));
    assert_eq!(row.task_type.as_deref(), Some("bug"));
    assert_eq!(row.updated_at.as_deref(), Some("u"));
    assert_eq!(row.completed_at.as_deref(), Some("c"));
    assert_eq!(row.blocked_reason.as_deref(), Some("r"));
    assert_eq!(row.blocked_at.as_deref(), Some("b"));
    let bare = task_row(&value(r#"{"id":"x","title":7,"metadata":[]}"#)).unwrap();
    assert_eq!(bare.status, "backlog");
    assert_eq!(bare.title, None);
    assert_eq!(bare.updated_at, None);
    assert!(task_row(&value(r#"{"id":7}"#)).is_none());
    assert!(task_row(&value("[]")).is_none());
}

#[test]
fn messages_of_the_table() {
    assert_eq!(missing_task("x"), "task not found: x");
    assert_eq!(upsert_failure("x"), "failed to upsert task x");
}

// ---------------------------------------------------------------------
// Round trips
// ---------------------------------------------------------------------

#[test]
fn create_then_get_round_trip() {
    let table = Table::fresh();
    let created = table.ok(
        "task/create",
        r#"{ "title": "Ship it", "body": "details", "priority": "high" }"#,
    );
    assert_eq!(text(&created, "kind"), Some("task"));
    let id = id_of(&created);
    assert!(id.starts_with("task:TASK-"));

    let fetched = table.ok("task/get", &format!(r#"{{ "id": "{id}" }}"#));
    assert_eq!(text(&fetched, "title"), Some("Ship it"));
    assert_eq!(fetched, created);
    let bare = strip_kind_prefix(&id);
    assert_eq!(table.ok("task/get", &format!(r#"{{"id":" {bare}\n"}}"#)), created);
}

#[test]
fn status_transitions_clear_blocked_fields() {
    let table = Table::fresh();
    let created = table.ok("task/create", r#"{ "title": "x" }"#);
    let id = id_of(&created);
    table.ok(
        "task/status",
        &format!(r#"{{ "id": "{id}", "status": "blocked" }}"#),
    );
    assert!(table.task(&id).get("blocked_at").unwrap().is_string());
    table.ok(
        "task/status",
        &format!(r#"{{ "id": "{id}", "status": "in-progress" }}"#),
    );
    let task = table.task(&id);
    assert_eq!(
        task.get("blocked_at").cloned().unwrap_or(Json::Null),
        Json::Null
    );
}

#[test]
fn checklist_add_then_update_marks_completed() {
    let table = Table::fresh();
    let id = id_of(&table.ok("task/create", r#"{ "title": "x" }"#));
    table.ok(
        "task/add_checklist_item",
        &format!(r#"{{ "id": "{id}", "description": "step 1" }}"#),
    );
    table.ok(
        "task/update_checklist_item",
        &format!(r#"{{ "id": "{id}", "item_id": "CL-001", "completed": true }}"#),
    );
    let task = table.task(&id);
    let completed = task
        .pointer("/checklist/0/completed")
        .and_then(Json::as_bool)
        .unwrap_or(false);
    assert!(completed);
}

#[test]
fn dependency_add_and_remove_round_trip() {
    let table = Table::fresh();
    let a_id = id_of(&table.ok("task/create", r#"{ "title": "a" }"#));
    let b_id = id_of(&table.ok("task/create", r#"{ "title": "b" }"#));
    table.ok(
        "task/add_dependency",
        &format!(
            r#"{{ "id": "{a_id}", "dependency_id": "{b_id}", "dependency_type": "blocks" }}"#
        ),
    );
    let len = |task: Json| {
        task.pointer("/dependencies")
            .and_then(Json::as_array)
            .map(Vec::len)
            .unwrap_or(0)
    };
    assert_eq!(len(table.task(&a_id)), 1);

    table.ok(
        "task/remove_dependency",
        &format!(r#"{{ "id": "{a_id}", "dependency_id": "{b_id}" }}"#),
    );
    assert_eq!(len(table.task(&a_id)), 0);
}

#[test]
fn update_patch_custom_fields() {
    let table = Table::fresh();
    let id = id_of(&table.ok("task/create", r#"{ "title": "x" }"#));
    table.ok(
        "task/update",
        &format!(
            r#"{{ "id": "{id}", "patch": {{ "custom": {{
                "paused": true, "scope": "large", "risk": "high", "deadline": "2026-12-31" }} }} }}"#
        ),
    );
    let task = table.task(&id);
    assert_eq!(task.get("paused").and_then(Json::as_bool), Some(true));
    assert_eq!(text(&task, "scope"), Some("large"));
    assert_eq!(text(&task, "risk"), Some("high"));
    assert_eq!(text(&task, "deadline"), Some("2026-12-31"));
}

#[test]
fn next_returns_highest_priority_open_task() {
    let table = Table::fresh();
    table.ok("task/create", r#"{ "title": "low", "priority": "low" }"#);
    let hi = table.ok("task/create", r#"{ "title": "hi", "priority": "critical" }"#);
    let next = table.call("task/next", None).unwrap().unwrap();
    assert_eq!(next.get("id"), hi.get("id"));
}

#[test]
fn delete_removes_row() {
    let table = Table::fresh();
    let id = id_of(&table.ok("task/create", r#"{ "title": "x" }"#));
    let reply = table.ok("task/delete", &format!(r#"{{ "id": "{id}" }}"#));
    assert_eq!(reply, json(r#"{"id":"task:TASK-001","deleted":true}"#));
    let missing = table.get(&strip_kind_prefix(&id));
    assert!(missing.is_err());
    let again = table.ok("task/delete", &format!(r#"{{ "id": "{id}" }}"#));
    assert_eq!(again, json(r#"{"id":"task:TASK-001","deleted":false}"#));
    assert_eq!(
        table.err("task/get", &format!(r#"{{ "id": "{id}" }}"#)),
        not_found("task TASK-001 not found: task not found: TASK-001")
    );
}

#[test]
fn deletion_on_the_wire() {
    for method in ["task/delete", "subject/delete"] {
        let table = listing_table();
        let others: Vec<Json> = ["a", "b", "d", "e", "f"].iter().map(|i| table.task(i)).collect();
        let params = Some(value(r#"{"id":"task:c"}"#));
        let Route::Delete(Ok(id)) = route(method, &params) else {
            panic!("{method} deletes");
        };
        let found = table.get(&strip_kind_prefix(&id));
        let Write::Delete { id: row } = delete(&id) else {
            panic!("{method} deletes a row");
        };
        let removed = table.delete(&row);
        assert_eq!(to_json(&deleted(&id, &removed).unwrap()), json(r#"{"ok":true}"#));
        let (kind, subject) = announced_deletion(&id, &found, &removed).unwrap();
        assert_eq!(kind, ChangeKind::Deleted);
        assert_eq!(subject.text("id"), Some("task:c"));
        assert!(table.get("c").is_err());
        let left: Vec<Json> = ["a", "b", "d", "e", "f"].iter().map(|i| table.task(i)).collect();
        assert_eq!(others, left);
        let again = table.delete(&row);
        assert!(deleted(&id, &again).is_err());
        assert!(announced_deletion(&id, &table.get("c"), &again).is_none());
    }
}

#[test]
fn creation_goes_on_past_any_number() {
    let table = Table::fresh();
    seed(&table, r#"{"id":"TASK-4294967295","title":"kept"}"#);
    let reply = table.ok("task/create", r#"{"title":"next"}"#);
    assert_eq!(text(&reply, "id"), Some("task:TASK-4294967296"));
    assert_eq!(text(&table.task("TASK-4294967295"), "title"), Some("kept"));
}

#[test]
fn unknown_method_returns_none() {
    let table = Table::fresh();
    assert!(table.call("subject/list", None).is_none());
    assert!(table.call("issue/list", None).is_none());
    assert!(table.call("task/", None).is_none());
    assert!(table.call("task/schema", None).is_none());
    assert!(table.call("task/watch", None).is_none());
    assert!(table.call("task/List", None).is_none());
    assert!(table.call("task", None).is_none());
}

#[test]
fn every_task_verb_is_routed() {
    let table = Table::fresh();
    let verbs = [
        "task/list",
        "task/list_filtered",
        "task/list_prioritized",
        "task/get",
        "task/create",
        "task/update",
        "task/replace",
        "task/delete",
        "task/statistics",
        "task/assign",
        "task/status",
        "task/next",
        "task/add_checklist_item",
        "task/update_checklist_item",
        "task/add_dependency",
        "task/remove_dependency",
    ];
    for verb in verbs {
        let outcome = table.call(verb, None);
        assert!(
            outcome.is_some(),
            "verb {verb} was not routed by try_dispatch"
        );
    }
}

#[test]
fn create_yields_full_subject_view() {
    let table = Table::fresh();
    let created = table.ok(
        "task/create",
        r#"{
            "title": "Land plugin",
            "body": "details",
            "priority": "critical",
            "labels": ["backend", "infra"]
        }"#,
    );
    assert_eq!(text(&created, "kind"), Some("task"));
    let id_wire = text(&created, "id").unwrap();
    assert!(id_wire.starts_with("task:TASK-"));
    let bare = strip_kind_prefix(id_wire);
    assert!(bare.starts_with("TASK-"));

    let custom = created
        .get("custom")
        .and_then(Json::as_object)
        .expect("custom block");
    for key in [
        "type",
        "risk",
        "scope",
        "paused",
        "cancelled",
        "deadline",
        "assignee",
        "checklist",
        "dependencies",
        "blocked_at",
        "blocked_reason",
        "blocked_by",
        "linked_requirements",
        "linked_architecture_entities",
    ] {
        assert!(
            custom.contains_key(key),
            "subject view missing custom.{key}"
        );
    }
    assert_eq!(created.get("labels"), Some(&json(r#"["backend","infra"]"#)));
    assert_eq!(created.get("priority"), Some(&json("4")));
    assert_eq!(text(&created, "description"), Some("details"));
}

#[test]
fn list_prioritized_orders_by_priority() {
    let table = Table::fresh();
    table.ok("task/create", r#"{ "title": "lo", "priority": "low" }"#);
    let hi = table.ok("task/create", r#"{ "title": "hi", "priority": "critical" }"#);

    let listed = table.call("task/list_prioritized", None).unwrap().unwrap();
    let arr = listed
        .get("subjects")
        .and_then(Json::as_array)
        .expect("subjects array");
    assert_eq!(arr.first().and_then(|t| t.get("id")), hi.get("id"));
}

#[test]
fn dependency_aware_fields_are_patchable() {
    let table = Table::fresh();
    let id = id_of(&table.ok("task/create", r#"{ "title": "x" }"#));
    table.ok(
        "task/update",
        &format!(
            r#"{{
            "id": "{id}",
            "patch": {{
                "custom": {{
                    "paused": true,
                    "cancelled": false,
                    "scope": "large",
                    "risk": "high",
                    "deadline": "2026-12-31",
                    "blocked_reason": "waiting on infra"
                }}
            }}
        }}"#
        ),
    );
    let fetched = table.ok("task/get", &format!(r#"{{ "id": "{id}" }}"#));
    let custom = fetched.get("custom").and_then(Json::as_object).unwrap();
    assert_eq!(custom.get("paused").and_then(Json::as_bool), Some(true));
    assert_eq!(custom.get("scope").and_then(Json::as_str), Some("large"));
    assert_eq!(custom.get("risk").and_then(Json::as_str), Some("high"));
    assert_eq!(
        custom.get("deadline").and_then(Json::as_str),
        Some("2026-12-31")
    );
    assert_eq!(
        custom.get("blocked_reason").and_then(Json::as_str),
        Some("waiting on infra")
    );
}

// ---------------------------------------------------------------------
// Creation
// ---------------------------------------------------------------------

#[test]
fn creation_counts_ids_up_and_takes_every_parameter() {
    let table = Table::fresh();
    table.ok("task/create", r#"{"title":"first"}"#);
    let reply = table.ok(
        "task/create",
        r#"{"title":"second","body":"b","priority":" P1 ","task_type":"bug","labels":["x",1,"y"],
            "linked_requirements":["R"],"linked_architecture_entities":["E"],"created_by":"me",
            "status":"blocked"}"#,
    );
    assert_eq!(text(&reply, "id"), Some("task:TASK-002"));
    let task = table.task("TASK-002");
    assert_eq!(text(&task, "priority"), Some("high"));
    assert_eq!(text(&task, "task_type"), Some("bug"));
    assert_eq!(task.get("tags"), Some(&json(r#"["x","y"]"#)));
    assert_eq!(task.get("linked_requirements"), Some(&json(r#"["R"]"#)));
    assert_eq!(
        task.get("linked_architecture_entities"),
        Some(&json(r#"["E"]"#))
    );
    assert_eq!(
        task.pointer("/metadata/created_by").and_then(Json::as_str),
        Some("me")
    );
    assert_eq!(text(&task, "status"), Some("blocked"));
    assert_eq!(
        task.get("blocked_at"),
        task.pointer("/metadata/created_at")
    );
    assert_eq!(table.column("TASK-002", "status").as_deref(), Some("blocked"));
    assert_eq!(table.column("TASK-002", "priority").as_deref(), Some("high"));
    assert_eq!(text(&table.task("TASK-001"), "title"), Some("first"));
}

#[test]
fn creation_is_dated_with_the_current_time() {
    let table = Table::fresh();
    let before = chrono::Utc::now();
    let reply = table.ok("task/create", r#"{"title":"x"}"#);
    let after = chrono::Utc::now();
    let at = chrono::DateTime::parse_from_rfc3339(text(&reply, "created_at").unwrap()).unwrap();
    assert!(before <= at && at <= after);
    assert_eq!(reply.get("created_at"), reply.get("updated_at"));
}

#[test]
fn creation_at_a_given_time() {
    let params = Some(value(r#"{"title":"x","status":"completed"}"#));
    let Some(Step::ReadIds(draft)) = try_dispatch("task/create", &params) else {
        panic!("creation reads the ids");
    };
    let ids = Ok(vec!["N7".to_string()]);
    let Step::Write(Write::Upsert { task, row, action }) =
        create_task_at(draft, &ids, "N", 2, "2026-01-02T03:04:05Z")
    else {
        panic!("creation stores a task");
    };
    assert_eq!(row.id, "N08");
    assert_eq!(row.status, "completed");
    assert_eq!(row.completed_at.as_deref(), Some("2026-01-02T03:04:05Z"));
    assert_eq!(action, "task create");
    assert_eq!(task.text("id"), Some("N08"));
}

// ---------------------------------------------------------------------
// Listings
// ---------------------------------------------------------------------

fn ids_in(page: &Json) -> Vec<String> {
    assert_eq!(page.get("next_cursor"), Some(&Json::Null));
    page.get("subjects")
        .and_then(Json::as_array)
        .unwrap()
        .iter()
        .map(id_of)
        .collect()
}

fn listing_table() -> Table {
    let table = Table::fresh();
    seed(&table, r#"{"id":"b","status":"ready","priority":"low"}"#);
    seed(&table, r#"{"id":"a","status":"backlog","priority":"odd"}"#);
    seed(&table, r#"{"id":"d","status":"ready","priority":"high"}"#);
    seed(&table, r#"{"id":"c","status":"completed","priority":"critical"}"#);
    seed(&table, r#"{"id":"e","status":"in-progress"}"#);
    seed(&table, r#"{"id":"f","status":"blocked","priority":"high"}"#);
    table
}

#[test]
fn listings_filter_by_native_status_and_limit() {
    let table = listing_table();
    let list = |params: &str| ids_in(&table.ok("task/list", params));
    assert_eq!(
        list("{}"),
        ["task:a", "task:b", "task:c", "task:d", "task:e", "task:f"]
    );
    assert_eq!(list(r#"{"status":"ready"}"#), ["task:b", "task:d"]);
    assert_eq!(list(r#"{"status":["ready","blocked"]}"#), ["task:b", "task:d"]);
    assert_eq!(list(r#"{"status":[]}"#).len(), 6);
    assert_eq!(list(r#"{"status":[7]}"#).len(), 6);
    assert_eq!(list(r#"{"status":7}"#).len(), 6);
    assert_eq!(list(r#"{"status":"nothing"}"#).len(), 0);
    assert_eq!(list(r#"{"limit":2}"#), ["task:a", "task:b"]);
    assert_eq!(list(r#"{"limit":0}"#).len(), 0);
    assert_eq!(list(r#"{"limit":-1}"#).len(), 6);
    assert_eq!(list(r#"{"limit":1.0}"#).len(), 6);
    assert_eq!(list(r#"{"status":"ready","limit":1}"#), ["task:b"]);
    assert_eq!(
        ids_in(&table.ok("task/list_filtered", r#"{"status":"ready"}"#)),
        ["task:b", "task:d"]
    );
    assert_eq!(table.call("task/list", None).unwrap().unwrap(), table.ok("task/list", "{}"));
}

#[test]
fn priority_order_keeps_equals_in_order() {
    let table = listing_table();
    assert_eq!(
        ids_in(&table.ok("task/list_prioritized", "{}")),
        ["task:c", "task:d", "task:f", "task:e", "task:b", "task:a"]
    );
}

#[test]
fn next_task_is_open_and_first_of_the_highest() {
    let table = listing_table();
    assert_eq!(id_of(&table.ok("task/next", "{}")), "task:d");
    seed(&table, r#"{"id":"cc","status":"backlog","priority":"high"}"#);
    assert_eq!(id_of(&table.ok("task/next", "{}")), "task:cc");
    let closed = Table::fresh();
    assert_eq!(closed.ok("task/next", "{}"), Json::Null);
    seed(&closed, r#"{"id":"x","status":"blocked"}"#);
    seed(&closed, r#"{"id":"y"}"#);
    seed(&closed, r#"{"id":"z","status":"in_progress"}"#);
    assert_eq!(closed.ok("task/next", "{}"), Json::Null);
}

#[test]
fn statistics_count_every_task() {
    let table = listing_table();
    seed(&table, r#"{"id":"g","status":"in_progress","priority":7}"#);
    seed(&table, r#"{"id":"h","status":"cancelled","priority":"high"}"#);
    seed(&table, r#"{"id":"i","status":"done"}"#);
    seed(&table, r#"{"id":"j"}"#);
    assert_eq!(
        table.ok("task/statistics", "{}"),
        json(
            r#"{"total":10,
                "by_status":{"ready":2,"backlog":2,"completed":1,"in-progress":1,"blocked":1,
                             "in_progress":1,"cancelled":1,"done":1},
                "by_priority":{"low":1,"odd":1,"high":3,"critical":1,"medium":4},
                "in_progress":2,"blocked":1,"completed":3}"#
        )
    );
    assert_eq!(
        Table::fresh().ok("task/statistics", "{}"),
        json(
            r#"{"total":0,"by_status":{},"by_priority":{},"in_progress":0,"blocked":0,
                "completed":0}"#
        )
    );
}

#[test]
fn listings_that_cannot_be_read_say_so() {
    let failed: Result<Vec<Value>, String> = Err("disk full".to_string());
    for listing in [
        Listing::List {
            limit: None,
            status: None,
        },
        Listing::Prioritized,
        Listing::Next,
        Listing::Statistics,
    ] {
        let error = answer_listing(&listing, &failed).unwrap_err();
        assert_eq!(error.code, ErrorCode::InternalError);
        assert_eq!(error.message, "task list failed: disk full");
        assert!(error.data.is_none());
    }
}

// ---------------------------------------------------------------------
// Changes
// ---------------------------------------------------------------------

fn change_at(method: &str, params: &str, task: &str) -> Result<Json, RpcError> {
    let params = Some(value(params));
    let Some(Step::ReadTask { id, change }) = try_dispatch(method, &params) else {
        panic!("a change reads a task");
    };
    match resume_task_at(&id, &change, Ok(value(task)), "then", "now") {
        Step::Write(Write::Upsert { task, .. }) => Ok(to_json(&task)),
        Step::Reply(Err(error)) => Err(error),
        step => panic!("not a change: {step:?}"),
    }
}

fn stamped(by: &str) -> Json {
    json(&format!(r#"{{"updated_at":"now","updated_by":"{by}"}}"#))
}

#[test]
fn changes_are_stamped() {
    let task = change_at("task/assign", r#"{"id":"x","assignee":"me"}"#, r#"{"id":"x"}"#).unwrap();
    assert_eq!(
        task,
        json(
            r#"{"id":"x","assignee":"me",
                "metadata":{"updated_at":"now","updated_by":"animus.subject.default"}}"#
        )
    );
    let task = change_at(
        "task/assign",
        r#"{"id":"x","assignee":"me"}"#,
        r#"{"id":"x","metadata":{"created_at":"c","updated_at":"u"}}"#,
    )
    .unwrap();
    assert_eq!(
        task.get("metadata"),
        Some(&json(
            r#"{"created_at":"c","updated_at":"now","updated_by":"animus.subject.default"}"#
        ))
    );
    let task = change_at(
        "task/assign",
        r#"{"id":"x","assignee":"me"}"#,
        r#"{"id":"x","metadata":7}"#,
    )
    .unwrap();
    assert_eq!(task.get("metadata"), Some(&json("7")));
}

#[test]
fn statuses_have_their_side_effects() {
    let start = r#"{"id":"x","status":"backlog","paused":true,"blocked_at":"b",
                    "blocked_reason":"r","blocked_by":"z","metadata":{"completed_at":null}}"#;
    let moved = |status: &str, task: &str| {
        change_at(
            "task/status",
            &format!(r#"{{"id":"x","status":"{status}"}}"#),
            task,
        )
        .unwrap()
    };
    let blocked = moved("blocked", start);
    assert_eq!(text(&blocked, "status"), Some("blocked"));
    assert_eq!(text(&blocked, "blocked_at"), Some("now"));
    assert_eq!(text(&blocked, "blocked_reason"), Some("r"));
    assert_eq!(blocked.get("paused"), Some(&json("true")));
    for status in ["in-progress", "in_progress", "ready"] {
        let task = moved(status, start);
        assert_eq!(text(&task, "status"), Some(status));
        assert_eq!(task.get("paused"), Some(&json("false")));
        for key in ["blocked_at", "blocked_reason", "blocked_by"] {
            assert_eq!(task.get(key), Some(&Json::Null));
        }
    }
    for status in ["completed", "done"] {
        let task = moved(status, start);
        assert_eq!(
            task.pointer("/metadata/completed_at").and_then(Json::as_str),
            Some("now")
        );
        assert_eq!(text(&task, "blocked_at"), Some("b"));
        let bare = moved(status, r#"{"id":"x"}"#);
        assert_eq!(bare.get("metadata"), Some(&stamped("animus.subject.default")));
        assert!(moved(status, r#"{"id":"x","metadata":[]}"#)
            .pointer("/metadata/completed_at")
            .is_none());
    }
    assert_eq!(moved("cancelled", start).get("cancelled"), Some(&json("true")));
    let odd = moved("triage", start);
    assert_eq!(text(&odd, "status"), Some("triage"));
    assert_eq!(text(&odd, "blocked_at"), Some("b"));
}

#[test]
fn patches_set_what_they_name() {
    let patch = |patch: &str, task: &str| {
        change_at(
            "task/update",
            &format!(r#"{{"id":"x","patch":{patch}}}"#),
            task,
        )
        .unwrap()
    };
    let start = r#"{"id":"x","title":"old","description":"old","tags":["a","b",7,"c"],"keep":1}"#;
    let task = patch(
        r#"{"title":"new","body":"body","priority":" P0","assignee":null,"paused":null,
            "deadline":"d","task_type":"bug","scope":"s","risk":"r","cancelled":true,
            "blocked_reason":"why","blocked_at":"at","blocked_by":["y"],"status":"blocked"}"#,
        start,
    );
    assert_eq!(
        task,
        json(
            r#"{"id":"x","title":"new","description":"body","priority":"critical",
                "assignee":null,"paused":null,"deadline":"d","task_type":"bug","scope":"s",
                "risk":"r","cancelled":true,"blocked_reason":"why","blocked_at":"at",
                "blocked_by":["y"],"status":"blocked","tags":["a","b",7,"c"],"keep":1,
                "metadata":{"updated_at":"now","updated_by":"animus.subject.default"}}"#
        )
    );
    assert_eq!(
        text(&patch(r#"{"status":"blocked"}"#, start), "blocked_at"),
        Some("then")
    );
    assert_eq!(
        text(&patch(r#"{"body":"b","description":"d"}"#, start), "description"),
        Some("d")
    );
    let tags = |p: &str| patch(p, start).get("tags").cloned().unwrap();
    assert_eq!(tags(r#"{"labels":["z",3,"y"]}"#), json(r#"["z","y"]"#));
    assert_eq!(tags(r#"{"labels":[]}"#), json("[]"));
    assert_eq!(
        tags(r#"{"labels_add":["d","a","d"],"labels_remove":["b"]}"#),
        json(r#"["a","c","d"]"#)
    );
    assert_eq!(
        tags(r#"{"labels_add":["b"],"labels_remove":["b"]}"#),
        json(r#"["a","c","b"]"#)
    );
    assert_eq!(
        tags(r#"{"labels":["q"],"labels_add":["d"]}"#),
        json(r#"["q","d"]"#)
    );
    assert_eq!(tags(r#"{"labels_add":[],"labels_remove":[7]}"#), json(r#"["a","b",7,"c"]"#));
}

#[test]
fn custom_blocks_set_and_take_out() {
    let patch = |patch: &str| {
        change_at(
            "task/update",
            &format!(r#"{{"id":"x","patch":{patch}}}"#),
            r#"{"id":"x","title":"t","mine":1,"scope":"s"}"#,
        )
        .unwrap()
    };
    let task = patch(
        r#"{"custom":{"paused":true,"cancelled":false,"scope":null,"risk":"high","deadline":"d",
            "task_type":"bug","assignee":"me","blocked_at":"a","blocked_reason":"r",
            "blocked_by":"b","linked_requirements":["R"],"linked_architecture_entities":null,
            "mine":null,"other":{"deep":[1]},"title":"custom"}}"#,
    );
    assert_eq!(
        task,
        json(
            r#"{"id":"x","title":"custom","paused":true,"cancelled":false,"scope":null,
                "risk":"high","deadline":"d","task_type":"bug","assignee":"me","blocked_at":"a",
                "blocked_reason":"r","blocked_by":"b","linked_requirements":["R"],
                "linked_architecture_entities":null,"other":{"deep":[1]},
                "metadata":{"updated_at":"now","updated_by":"animus.subject.default"}}"#
        )
    );
    assert_eq!(
        patch(r#"{"paused":true}"#),
        patch(r#"{"custom":{"paused":true}}"#)
    );
    assert_eq!(
        text(&patch(r#"{"custom":{"scope":"in"},"scope":"out"}"#), "scope"),
        Some("out")
    );
    assert_eq!(patch(r#"{"custom":[1]}"#), patch("{}"));
    assert_eq!(patch("null"), patch("{}"));
}

#[test]
fn patches_may_stand_among_the_parameters() {
    let task = change_at(
        "task/update",
        r#"{"id":"x","title":"new","custom":{"a":1}}"#,
        r#"{"id":"x","title":"old"}"#,
    )
    .unwrap();
    assert_eq!(text(&task, "title"), Some("new"));
    assert_eq!(task.get("a"), Some(&json("1")));
    assert!(patch_value(&None).is_null());
    assert_eq!(
        to_json(&patch_value(&Some(value(r#"{"patch":null,"title":"x"}"#)))),
        Json::Null
    );
}

#[test]
fn checklist_items_are_numbered_by_their_place() {
    let start = r#"{"id":"x","checklist":[{"id":"CL-001"},7]}"#;
    let task = change_at(
        "task/add_checklist_item",
        r#"{"id":"x","description":"do","updated_by":"me"}"#,
        start,
    )
    .unwrap();
    assert_eq!(
        task,
        json(
            r#"{"id":"x","checklist":[{"id":"CL-001"},7,
                {"id":"CL-003","description":"do","completed":false,"created_at":"now",
                 "updated_at":"now"}],
                "metadata":{"updated_at":"now","updated_by":"me"}}"#
        )
    );
    let task = change_at(
        "task/add_checklist_item",
        r#"{"id":"x","description":"do"}"#,
        r#"{"id":"x"}"#,
    )
    .unwrap();
    assert_eq!(
        task.pointer("/checklist/0/id").and_then(Json::as_str),
        Some("CL-001")
    );
    assert_eq!(task.get("metadata"), Some(&stamped("animus.subject.default")));
}

#[test]
fn only_the_first_item_with_the_id_is_marked() {
    let task = change_at(
        "task/update_checklist_item",
        r#"{"id":"x","item_id":"CL-002","completed":true,"updated_by":"me"}"#,
        r#"{"id":"x","checklist":[{"id":"CL-001"},{"id":"CL-002","k":1},{"id":"CL-002"}]}"#,
    )
    .unwrap();
    assert_eq!(
        task.get("checklist"),
        Some(&json(
            r#"[{"id":"CL-001"},{"id":"CL-002","k":1,"completed":true,"updated_at":"now"},
                {"id":"CL-002"}]"#
        ))
    );
    assert_eq!(task.get("metadata"), Some(&stamped("me")));
}

#[test]
fn dependencies_are_kept_once_and_bare() {
    let add = |params: &str, task: &str| change_at("task/add_dependency", params, task).unwrap();
    let once = add(r#"{"id":"x","dependency_id":"task:y"}"#, r#"{"id":"x"}"#);
    assert_eq!(
        once.get("dependencies"),
        Some(&json(
            r#"[{"dependency_id":"y","dependency_type":"blocks","added_at":"now"}]"#
        ))
    );
    let twice = add(
        r#"{"id":"x","dependency_id":"y","dependency_type":"other"}"#,
        &once.to_string(),
    );
    assert_eq!(twice, once);
    let both = add(
        r#"{"id":"x","dependency_id":"z","dependency_type":"relates"}"#,
        &once.to_string(),
    );
    assert_eq!(
        both.pointer("/dependencies/1/dependency_type")
            .and_then(Json::as_str),
        Some("relates")
    );
    let remove =
        |params: &str, task: &str| change_at("task/remove_dependency", params, task).unwrap();
    assert_eq!(
        remove(r#"{"id":"x","dependency_id":"task:z"}"#, &both.to_string()),
        once
    );
    assert_eq!(
        remove(
            r#"{"id":"x","dependency_id":"y","updated_by":"me"}"#,
            r#"{"id":"x","dependencies":[{"dependency_id":"y"},1,{"dependency_id":"y"}]}"#
        ),
        json(
            r#"{"id":"x","dependencies":[1],"metadata":{"updated_at":"now","updated_by":"me"}}"#
        )
    );
    assert_eq!(
        remove(r#"{"id":"x","dependency_id":"y"}"#, r#"{"id":"x","dependencies":7}"#)
            .get("dependencies"),
        Some(&json("7"))
    );
}

#[test]
fn replacement_stores_the_payload_as_it_is() {
    let table = Table::fresh();
    let reply = table.ok(
        "task/replace",
        r#"{"task":{"id":"x","title":"t","n":1.5,"m":-3}}"#,
    );
    assert_eq!(text(&reply, "id"), Some("task:x"));
    assert_eq!(reply, table.ok("task/get", r#"{"id":"x"}"#));
    assert_eq!(
        table.task("x"),
        json(r#"{"id":"x","title":"t","n":1.5,"m":-3}"#)
    );
}

#[test]
fn changes_touch_one_task() {
    let table = listing_table();
    let before: Vec<Json> = ["a", "b", "d", "e", "f"].iter().map(|id| table.task(id)).collect();
    let reply = table.ok("task/status", r#"{"id":"task:c","status":"ready"}"#);
    assert_eq!(reply, table.ok("task/get", r#"{"id":"c"}"#));
    let after: Vec<Json> = ["a", "b", "d", "e", "f"].iter().map(|id| table.task(id)).collect();
    assert_eq!(before, after);
    assert_eq!(table.ids().unwrap().len(), 6);
    assert_eq!(table.column("c", "status").as_deref(), Some("ready"));
}

// ---------------------------------------------------------------------
// Refusals
// ---------------------------------------------------------------------

#[test]
fn requests_without_an_id_are_refused() {
    let table = listing_table();
    for method in [
        "task/get",
        "task/update",
        "task/delete",
        "task/assign",
        "task/status",
        "task/add_checklist_item",
        "task/update_checklist_item",
        "task/add_dependency",
        "task/remove_dependency",
    ] {
        for params in ["{}", r#"{"id":7}"#, "null", "[]"] {
            assert_eq!(
                table.err(method, params),
                invalid("task call requires --id")
            );
        }
        assert_eq!(
            table.err(method, r#"{"id":" \t"}"#),
            invalid("task --id must not be empty")
        );
    }
    assert_eq!(table.ids().unwrap().len(), 6);
    assert_eq!(require_id(&Some(value(r#"{"id":" task:x "}"#))).unwrap(), "x");
}

#[test]
fn incomplete_requests_are_refused() {
    let table = listing_table();
    for (method, params, message) in [
        ("task/create", "{}", "task create requires --title"),
        ("task/create", r#"{"title":7}"#, "task create requires --title"),
        ("task/replace", "{}", "task replace requires --task <json>"),
        ("task/replace", r#"{"task":{}}"#, "task replace payload missing id"),
        ("task/replace", r#"{"task":null}"#, "task replace payload missing id"),
        ("task/assign", r#"{"id":"a"}"#, "task assign requires --assignee"),
        ("task/status", r#"{"id":"a"}"#, "task status requires --status"),
        (
            "task/add_checklist_item",
            r#"{"id":"a"}"#,
            "task add_checklist_item requires --description",
        ),
        (
            "task/update_checklist_item",
            r#"{"id":"a","completed":true}"#,
            "task update_checklist_item requires --item-id",
        ),
        (
            "task/update_checklist_item",
            r#"{"id":"a","item_id":"CL-001"}"#,
            "task update_checklist_item requires --completed",
        ),
        (
            "task/add_dependency",
            r#"{"id":"a"}"#,
            "task add_dependency requires --dependency-id",
        ),
        (
            "task/remove_dependency",
            r#"{"id":"a"}"#,
            "task remove_dependency requires --dependency-id",
        ),
        (
            "task/update_checklist_item",
            r#"{"id":"a","item_id":"CL-001","completed":true}"#,
            "task has no checklist",
        ),
    ] {
        assert_eq!(table.err(method, params), invalid(message));
    }
}

#[test]
fn missing_tasks_are_refused() {
    let table = listing_table();
    for (method, params) in [
        ("task/get", r#"{"id":"zz"}"#),
        ("task/update", r#"{"id":"zz"}"#),
        ("task/assign", r#"{"id":"task:zz","assignee":"me"}"#),
        ("task/status", r#"{"id":"zz","status":"ready"}"#),
        ("task/add_checklist_item", r#"{"id":"zz","description":"d"}"#),
        (
            "task/update_checklist_item",
            r#"{"id":"zz","item_id":"i","completed":false}"#,
        ),
        ("task/add_dependency", r#"{"id":"zz","dependency_id":"a"}"#),
        ("task/remove_dependency", r#"{"id":"zz","dependency_id":"a"}"#),
    ] {
        assert_eq!(
            table.err(method, params),
            not_found("task zz not found: task not found: zz")
        );
    }
    assert_eq!(table.ids().unwrap().len(), 6);
}

#[test]
fn impossible_changes_are_refused() {
    let error = |method: &str, params: &str, task: &str| {
        let error = change_at(method, params, task).unwrap_err();
        (error.code, error.message, error.data.as_ref().map(to_json))
    };
    let item = r#"{"id":"x","description":"d"}"#;
    let dependency = r#"{"id":"x","dependency_id":"y"}"#;
    assert_eq!(
        error("task/add_checklist_item", item, "[]"),
        internal("task payload not an object")
    );
    assert_eq!(
        error("task/add_checklist_item", item, r#"{"id":"x","checklist":null}"#),
        internal("task checklist field is not an array")
    );
    assert_eq!(
        error("task/add_dependency", dependency, "7"),
        internal("task payload not an object")
    );
    assert_eq!(
        error("task/add_dependency", dependency, r#"{"id":"x","dependencies":{}}"#),
        internal("dependencies field is not an array")
    );
    assert_eq!(
        error(
            "task/update_checklist_item",
            r#"{"id":"x","item_id":"CL-009","completed":true}"#,
            r#"{"id":"x","checklist":[{"id":"CL-001"}]}"#
        ),
        not_found("checklist item CL-009 not found")
    );
    for (method, params, message) in [
        ("task/update", r#"{"id":"x"}"#, "task update failed: task json missing id"),
        (
            "task/assign",
            r#"{"id":"x","assignee":"a"}"#,
            "task assign failed: task json missing id",
        ),
        (
            "task/status",
            r#"{"id":"x","status":"ready"}"#,
            "task set_status failed: task json missing id",
        ),
        ("task/add_checklist_item", item, "task add_checklist_item failed: task json missing id"),
        ("task/add_dependency", dependency, "task add_dependency failed: task json missing id"),
        (
            "task/remove_dependency",
            dependency,
            "task remove_dependency failed: task json missing id",
        ),
    ] {
        assert_eq!(error(method, params, "{}"), internal(message));
    }
    assert_eq!(
        error(
            "task/update_checklist_item",
            r#"{"id":"x","item_id":"a","completed":true}"#,
            r#"{"checklist":[{"id":"a"}]}"#
        ),
        internal("task update_checklist_item failed: task json missing id")
    );
}

#[test]
fn failed_writes_and_reads_say_what_they_were_for() {
    let task = value(r#"{"id":"x"}"#);
    let row = task_row(&task).unwrap();
    let write = Write::Upsert {
        task,
        row,
        action: "task create".to_string(),
    };
    let error = settle(&write, &Err(upsert_failure("x"))).unwrap_err();
    assert_eq!(error.code, ErrorCode::InternalError);
    assert_eq!(error.message, "task create failed: failed to upsert task x");
    let delete = Write::Delete {
        id: "x".to_string(),
    };
    let error = settle(&delete, &Err("locked".to_string())).unwrap_err();
    assert_eq!(error.code, ErrorCode::InternalError);
    assert_eq!(error.message, "task delete failed: locked");
    let params = Some(value(r#"{"title":"x"}"#));
    let Some(Step::ReadIds(draft)) = try_dispatch("task/create", &params) else {
        panic!("creation reads the ids");
    };
    let Step::Reply(Err(error)) = create_task(draft, &Err("locked".to_string()), "TASK-", 3) else {
        panic!("creation needs the ids");
    };
    assert_eq!(error.code, ErrorCode::InternalError);
    assert_eq!(error.message, "id generation failed: locked");
}

#[test]
fn renamed_tasks_are_stored_under_the_new_id() {
    let table = listing_table();
    table.ok("task/update", r#"{"id":"a","patch":{"custom":{"id":"aa"}}}"#);
    assert_eq!(table.ids().unwrap().len(), 7);
    assert_eq!(text(&table.task("aa"), "status"), Some("backlog"));
    assert_eq!(text(&table.task("a"), "id"), Some("a"));
}
