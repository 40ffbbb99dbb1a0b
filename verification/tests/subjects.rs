//! The standard subject verbs.
use animus_subject_default::backend::{
    announced_deletion, change_kind, delete, deleted, filter_names, get, health, list,
    matches_filter, native_name, schema, select, subject_patch_to_value, task_facts, update,
    update_at, BackendError, ChangeKind, CustomFieldKind, Health, SubjectFacts, SubjectFilter,
    SubjectPatch, SubjectStatus,
};
use animus_subject_default::methods::dispatch::Write;
use animus_subject_default::methods::patch::{apply_patch, apply_plain_patch, plain_patch};
use animus_subject_default::methods::{normalize_status, strip_kind_prefix, subject_view};
use animus_subject_default::store::crud::{build_new_task, missing_task, stamp_update};
use animus_subject_default::value::{string_value, strings_in, strings_value, Object, Value};

fn seeded() -> Value {
    build_new_task(
        "TASK-001".into(),
        "seed".into(),
        String::new(),
        None,
        None,
        vec![],
        None,
        vec![],
        vec![],
        "2026-05-23T00:00:00Z",
    )
}

fn read(id: &str) -> Result<Value, String> {
    if id == "TASK-001" {
        Ok(seeded())
    } else {
        Err(missing_task(id))
    }
}

fn any() -> SubjectFilter {
    SubjectFilter {
        status: vec![],
        kind: vec![],
        labels_any: vec![],
        labels_all: vec![],
        native_status: vec![],
        dispatch_label: vec![],
        has_attachment_kind: vec![],
        limit: None,
    }
}

fn strings(items: &[&str]) -> Vec<String> {
    items.iter().map(|s| s.to_string()).collect()
}

fn labelled(status: SubjectStatus, labels: &[&str]) -> SubjectFacts {
    SubjectFacts {
        status,
        kind: "task".to_string(),
        labels: strings(labels),
        native_status: native_name(status).to_string(),
        dispatch_label: None,
        attachment_kinds: vec![],
    }
}

fn in_status(id: &str, status: &str) -> Value {
    let mut task = seeded();
    task.set("id", string_value(id));
    task.set("status", string_value(status));
    task
}

fn no_patch() -> SubjectPatch {
    SubjectPatch {
        status: None,
        assignee: None,
        labels_add: vec![],
        labels_remove: vec![],
        comment: None,
        custom: Object::new(),
    }
}

#[test]
fn list_returns_seeded_task() {
    let tasks = vec![seeded()];
    let places = list(&tasks, &any());
    assert_eq!(places.len(), 1);
    let subject = subject_view(&tasks[places[0]]);
    assert_eq!(subject.text("kind"), Some("task"));
    assert_eq!(subject.text("title"), Some("seed"));
}

#[test]
fn get_strips_kind_prefix() {
    let id = "task:TASK-001";
    let subject = get(id, &read(&strip_kind_prefix(id))).unwrap();
    assert_eq!(subject.text("title"), Some("seed"));
}

#[test]
fn missing_subjects_go_by_the_id_that_was_asked_for() {
    let id = "task:TASK-002";
    let found = read(&strip_kind_prefix(id));
    assert!(matches!(get(id, &found), Err(BackendError::NotFound(what)) if what == id));
    assert!(matches!(
        update(id, found, &no_patch()),
        Err(BackendError::NotFound(what)) if what == id
    ));
}

#[test]
fn schema_claims_task_kind_and_create_support() {
    let schema = schema();
    assert_eq!(schema.kinds, vec!["task".to_string()]);
    assert!(schema.supports_create);
    assert!(schema.supports_watch);
}

#[test]
fn schema_lists_statuses_and_custom_fields() {
    let schema = schema();
    assert!(!schema.supports_pagination);
    assert_eq!(
        schema.status_values,
        vec![
            SubjectStatus::Ready,
            SubjectStatus::InProgress,
            SubjectStatus::Blocked,
            SubjectStatus::Done,
            SubjectStatus::Cancelled,
        ]
    );
    assert_eq!(
        schema.native_status_values,
        strings(&["backlog", "ready", "in-progress", "blocked", "completed", "cancelled"])
    );
    let keys: Vec<&str> = schema.custom_fields.iter().map(|f| f.key.as_str()).collect();
    assert_eq!(
        keys,
        [
            "type",
            "risk",
            "scope",
            "paused",
            "cancelled",
            "deadline",
            "assignee",
            "checklist",
            "dependencies",
            "blocked_at",
            "blocked_reason",
            "blocked_by",
            "linked_requirements",
            "linked_architecture_entities",
        ]
    );
    assert_eq!(schema.custom_fields[1].kind, CustomFieldKind::Enum);
    assert_eq!(
        schema.custom_fields[1].values,
        Some(strings(&["low", "medium", "high"]))
    );
    assert_eq!(
        schema.custom_fields[2].values,
        Some(strings(&["small", "medium", "large"]))
    );
    assert_eq!(schema.custom_fields[3].kind, CustomFieldKind::Bool);
    assert_eq!(schema.custom_fields[5].kind, CustomFieldKind::Date);
    assert_eq!(schema.custom_fields[9].kind, CustomFieldKind::Date);
    assert_eq!(schema.custom_fields[13].kind, CustomFieldKind::String);
    let subject = subject_view(&Value::Null);
    for key in keys {
        assert!(subject.nested("custom", key).is_some());
    }
}

#[test]
fn views_of_bare_tasks_have_every_default() {
    let subject = subject_view(&Value::Object(Object::new()));
    assert_eq!(subject.text("id"), Some("task:"));
    assert_eq!(subject.text("kind"), Some("task"));
    assert_eq!(subject.text("title"), Some(""));
    assert_eq!(subject.text("description"), Some(""));
    assert_eq!(subject.text("status"), Some("ready"));
    assert_eq!(subject.text("native_status"), Some("backlog"));
    assert_eq!(subject.get("priority").unwrap().as_u64(), Some(2));
    assert_eq!(subject.items("labels").unwrap().len(), 0);
    assert!(subject.get("created_at").unwrap().is_null());
    assert!(subject.get("updated_at").unwrap().is_null());
    let custom = subject.get("custom").unwrap();
    assert_eq!(custom.text("type"), Some("feature"));
    assert_eq!(custom.text("risk"), Some("medium"));
    assert_eq!(custom.text("scope"), Some("medium"));
    assert_eq!(custom.flag("paused"), Some(false));
    assert_eq!(custom.flag("cancelled"), Some(false));
    assert_eq!(custom.text("raw_status"), Some("backlog"));
    assert_eq!(custom.items("checklist").unwrap().len(), 0);
    assert!(custom.get("deadline").unwrap().is_null());
}

#[test]
fn priorities_are_shown_in_buckets() {
    for (priority, bucket) in [
        ("critical", 4),
        ("high", 3),
        ("medium", 2),
        ("low", 1),
        ("odd", 2),
    ] {
        let mut task = seeded();
        task.set("priority", string_value(priority));
        assert_eq!(
            subject_view(&task).get("priority").unwrap().as_u64(),
            Some(bucket)
        );
    }
}

#[test]
fn filters_ask_for_all_they_name() {
    let subject = labelled(SubjectStatus::Blocked, &["a", "b"]);
    let check = |filter: SubjectFilter| matches_filter(&filter, &subject);
    assert!(check(any()));
    let status = |status: &[SubjectStatus]| SubjectFilter {
        status: status.to_vec(),
        ..any()
    };
    assert!(check(status(&[SubjectStatus::Ready, SubjectStatus::Blocked])));
    assert!(!check(status(&[SubjectStatus::Ready])));
    let kind = |kind: &[&str]| SubjectFilter {
        kind: strings(kind),
        ..any()
    };
    assert!(check(kind(&["issue", "task"])));
    assert!(!check(kind(&["issue"])));
    let some = |labels: &[&str]| SubjectFilter {
        labels_any: strings(labels),
        ..any()
    };
    assert!(check(some(&["x", "b"])));
    assert!(!check(some(&["x"])));
    let all = |labels: &[&str]| SubjectFilter {
        labels_all: strings(labels),
        ..any()
    };
    assert!(check(all(&["b", "a"])));
    assert!(!check(all(&["a", "x"])));
    let mut both = some(&["a"]);
    both.labels_all = strings(&["x"]);
    assert!(!check(both));
}

#[test]
fn listings_keep_the_order_and_the_limit() {
    let subjects = vec![
        labelled(SubjectStatus::Ready, &["a"]),
        labelled(SubjectStatus::Done, &[]),
        labelled(SubjectStatus::Ready, &["b"]),
        labelled(SubjectStatus::Ready, &[]),
    ];
    let ready = |limit: Option<u32>| SubjectFilter {
        status: vec![SubjectStatus::Ready],
        limit,
        ..any()
    };
    assert_eq!(select(&subjects, &any()), vec![0, 1, 2, 3]);
    assert_eq!(select(&subjects, &ready(None)), vec![0, 2, 3]);
    assert_eq!(select(&subjects, &ready(Some(2))), vec![0, 2]);
    assert_eq!(select(&subjects, &ready(Some(0))), Vec::<usize>::new());
    assert_eq!(select(&subjects, &ready(Some(9))), vec![0, 2, 3]);
}

#[test]
fn listings_can_ask_for_a_native_status() {
    let tasks = vec![in_status("a", "backlog"), in_status("b", "blocked")];
    let mut filter = any();
    filter.native_status = strings(&["blocked"]);
    assert_eq!(list(&tasks, &filter), vec![1]);
    filter.native_status = strings(&["backlog", "blocked"]);
    assert_eq!(list(&tasks, &filter), vec![0, 1]);
    filter.native_status = strings(&["ready"]);
    assert_eq!(list(&tasks, &filter), Vec::<usize>::new());
    let mut filter = any();
    filter.status = vec![SubjectStatus::Ready];
    assert_eq!(list(&tasks, &filter), vec![0]);
}

#[test]
fn tasks_have_no_dispatch_label_and_no_attachments() {
    let tasks = vec![seeded()];
    let mut filter = any();
    filter.dispatch_label = strings(&["now"]);
    assert!(list(&tasks, &filter).is_empty());
    let mut filter = any();
    filter.has_attachment_kind = strings(&["image"]);
    assert!(list(&tasks, &filter).is_empty());
    let mut subject = labelled(SubjectStatus::Ready, &[]);
    subject.attachment_kinds = strings(&["text", "image"]);
    assert!(matches_filter(&filter, &subject));
    subject.dispatch_label = Some("now".to_string());
    filter.dispatch_label = strings(&["later", "now"]);
    assert!(matches_filter(&filter, &subject));
    filter.dispatch_label = strings(&["later"]);
    assert!(!matches_filter(&filter, &subject));
}

#[test]
fn facts_are_those_that_are_shown() {
    for (native, status) in [
        ("backlog", SubjectStatus::Ready),
        ("ready", SubjectStatus::Ready),
        ("in_progress", SubjectStatus::InProgress),
        ("blocked", SubjectStatus::Blocked),
        ("completed", SubjectStatus::Done),
        ("done", SubjectStatus::Done),
        ("cancelled", SubjectStatus::Cancelled),
    ] {
        let mut task = in_status("x", native);
        task.set("tags", strings_value(&strings(&["a", "b"])));
        let facts = task_facts(&task);
        assert_eq!(facts.status, status);
        assert_eq!(facts.native_status, native);
        assert_eq!(facts.kind, "task");
        assert_eq!(facts.labels, strings(&["a", "b"]));
        assert!(facts.dispatch_label.is_none());
        assert!(facts.attachment_kinds.is_empty());
    }
    assert_eq!(task_facts(&Value::Null).native_status, "backlog");
}

#[test]
fn filter_documents_give_one_name_or_several() {
    let mut document = Value::Object(Object::new());
    document.set("one", string_value("x"));
    document.set("many", strings_value(&strings(&["y", "z"])));
    document.set("none", Value::Null);
    assert_eq!(filter_names(&document, "one"), strings(&["x"]));
    assert_eq!(filter_names(&document, "many"), strings(&["y", "z"]));
    assert!(filter_names(&document, "none").is_empty());
    assert!(filter_names(&document, "missing").is_empty());
}

#[test]
fn deletions_name_the_row() {
    for id in ["task:TASK-001", "TASK-001"] {
        assert!(matches!(delete(id), Write::Delete { id } if id == "TASK-001"));
    }
}

#[test]
fn deletions_are_answered() {
    let reply = deleted("task:x", &Ok(true)).unwrap();
    assert_eq!(reply.as_object().unwrap().len(), 1);
    assert_eq!(reply.flag("ok"), Some(true));
    assert!(matches!(
        deleted("task:x", &Ok(false)),
        Err(BackendError::NotFound(id)) if id == "task:x"
    ));
    assert!(matches!(
        deleted("task:x", &Err("locked".to_string())),
        Err(BackendError::Other(message)) if message == "locked"
    ));
}

#[test]
fn deletions_are_announced_once_done() {
    let (kind, subject) =
        announced_deletion("task:TASK-001", &read("TASK-001"), &Ok(true)).unwrap();
    assert_eq!(kind, ChangeKind::Deleted);
    assert_eq!(subject.text("id"), Some("task:TASK-001"));
    assert_eq!(subject.text("title"), Some("seed"));
    let unread = Err("bad payload".to_string());
    let (kind, subject) = announced_deletion("task:x", &unread, &Ok(true)).unwrap();
    assert_eq!(kind, ChangeKind::Deleted);
    assert_eq!(subject.text("id"), Some("task:x"));
    assert!(announced_deletion("TASK-001", &read("TASK-001"), &Ok(false)).is_none());
    let locked = Err("locked".to_string());
    assert!(announced_deletion("TASK-001", &read("TASK-001"), &locked).is_none());
}

#[test]
fn patches_may_be_wrapped() {
    let mut inner = Value::Object(Object::new());
    inner.set("title", string_value("new"));
    let mut wrapped = Value::Object(Object::new());
    wrapped.set("patch", inner.clone());
    for patch in [&inner, &wrapped] {
        let mut task = Value::Object(Object::new());
        task.set("title", string_value("old"));
        apply_patch(&mut task, patch);
        assert_eq!(task.text("title"), Some("new"));
        assert_eq!(task.as_object().unwrap().len(), 1);
    }
    assert_eq!(plain_patch(&wrapped).text("title"), Some("new"));
    let mut dated = seeded();
    apply_plain_patch(&mut dated, &wrapped);
    assert_eq!(dated.text("title"), Some("seed"));
}

#[test]
fn only_objects_are_wrapped_patches() {
    for other in [Value::Null, string_value("x"), strings_value(&strings(&["x"]))] {
        let mut document = Value::Object(Object::new());
        document.set("title", string_value("new"));
        document.set("labels_add", strings_value(&strings(&["b"])));
        document.set("labels_remove", strings_value(&strings(&[])));
        document.set("patch", other);
        let mut task = Value::Object(Object::new());
        task.set("title", string_value("old"));
        task.set("tags", strings_value(&strings(&["a"])));
        apply_patch(&mut task, &document);
        assert_eq!(task.text("title"), Some("new"));
        assert_eq!(strings_in(task.items("tags").unwrap()), strings(&["a", "b"]));
    }
    let mut document = Value::Object(Object::new());
    document.set("title", string_value("beside"));
    document.set("patch", Value::Object(Object::new()));
    let mut task = Value::Object(Object::new());
    task.set("title", string_value("old"));
    apply_patch(&mut task, &document);
    assert_eq!(task.text("title"), Some("old"));
}

#[test]
fn statuses_are_written_natively_and_read_back() {
    for (status, native, name) in [
        (SubjectStatus::Ready, "ready", "ready"),
        (SubjectStatus::InProgress, "in-progress", "in-progress"),
        (SubjectStatus::Blocked, "blocked", "blocked"),
        (SubjectStatus::Done, "completed", "done"),
        (SubjectStatus::Cancelled, "cancelled", "cancelled"),
    ] {
        assert_eq!(native_name(status), native);
        assert_eq!(normalize_status(native_name(status)), name);
    }
}

#[test]
fn patch_documents_hold_what_is_given() {
    let empty = subject_patch_to_value(&no_patch());
    assert!(empty.as_object().unwrap().is_empty());
    let mut patch = no_patch();
    patch.status = Some(SubjectStatus::Done);
    patch.assignee = Some(Value::Null);
    patch.labels_remove = strings(&["old"]);
    patch.comment = Some("why".to_string());
    patch.custom.insert("scope", string_value("large"));
    let document = subject_patch_to_value(&patch);
    assert_eq!(document.as_object().unwrap().len(), 6);
    assert_eq!(document.text("status"), Some("completed"));
    assert!(document.get("assignee").unwrap().is_null());
    assert_eq!(document.items("labels_add").unwrap().len(), 0);
    assert_eq!(
        strings_in(document.items("labels_remove").unwrap()),
        strings(&["old"])
    );
    assert_eq!(document.text("comment"), Some("why"));
    assert_eq!(
        document.nested("custom", "scope").unwrap().as_str(),
        Some("large")
    );
}

#[test]
fn updates_patch_and_stamp() {
    let mut patch = no_patch();
    patch.status = Some(SubjectStatus::Done);
    patch.assignee = Some(string_value("me"));
    patch.labels_add = strings(&["x", "y", "x"]);
    patch.comment = Some("not stored".to_string());
    patch.custom.insert("deadline", string_value("2026-12-31"));
    let (task, row) = update_at("task:TASK-001", Ok(seeded()), &patch, "then", "now").unwrap();
    assert_eq!(task.text("status"), Some("completed"));
    assert_eq!(
        task.nested("metadata", "completed_at").unwrap().as_str(),
        Some("then")
    );
    assert_eq!(
        task.nested("metadata", "updated_at").unwrap().as_str(),
        Some("now")
    );
    assert_eq!(task.text("assignee"), Some("me"));
    assert_eq!(strings_in(task.items("tags").unwrap()), strings(&["x", "y"]));
    assert_eq!(task.text("deadline"), Some("2026-12-31"));
    assert!(task.get("comment").is_none());
    assert_eq!(row.id, "TASK-001");
    assert_eq!(row.status, "completed");
    assert_eq!(row.completed_at.as_deref(), Some("then"));
    assert_eq!(row.updated_at.as_deref(), Some("now"));
}

#[test]
fn updates_without_a_patch_only_stamp() {
    let (task, _) = update_at("TASK-001", Ok(seeded()), &no_patch(), "then", "now").unwrap();
    let mut expected = seeded();
    stamp_update(&mut expected, "now", "animus.subject.default");
    assert_eq!(format!("{task:?}"), format!("{expected:?}"));
}

#[test]
fn updates_now_are_dated_with_the_current_time() {
    let mut patch = no_patch();
    patch.status = Some(SubjectStatus::Blocked);
    let before = chrono::Utc::now();
    let (task, _) = update("TASK-001", Ok(seeded()), &patch).unwrap();
    let after = chrono::Utc::now();
    let blocked = chrono::DateTime::parse_from_rfc3339(task.text("blocked_at").unwrap()).unwrap();
    let stamp = task.nested("metadata", "updated_at").unwrap();
    let stamp = chrono::DateTime::parse_from_rfc3339(stamp.as_str().unwrap()).unwrap();
    assert!(before <= blocked && blocked <= stamp && stamp <= after);
}

#[test]
fn patches_now_are_dated_with_the_current_time() {
    let mut task = seeded();
    let mut patch = Value::Object(Object::new());
    patch.set("status", string_value("blocked"));
    let before = chrono::Utc::now();
    apply_patch(&mut task, &patch);
    let after = chrono::Utc::now();
    let at = chrono::DateTime::parse_from_rfc3339(task.text("blocked_at").unwrap()).unwrap();
    assert!(before <= at && at <= after);
    let mut unchanged = Value::Null;
    apply_patch(&mut unchanged, &patch);
    assert!(unchanged.is_null());
}

#[test]
fn payloads_without_an_id_cannot_be_updated() {
    let outcome = update_at(
        "task:x",
        Ok(Value::Object(Object::new())),
        &no_patch(),
        "then",
        "now",
    );
    assert!(matches!(
        outcome,
        Err(BackendError::Other(message)) if message == "task json missing id"
    ));
}

#[test]
fn changes_of_status_are_announced_as_such() {
    let mut patch = no_patch();
    assert_eq!(change_kind(&patch), ChangeKind::Updated);
    patch.status = Some(SubjectStatus::Ready);
    assert_eq!(change_kind(&patch), ChangeKind::StatusChanged);
}

#[test]
fn health_is_that_of_the_table() {
    assert!(matches!(health(&Ok(vec![])), Health::Healthy));
    assert!(matches!(
        health(&Err("no such table: tasks".to_string())),
        Health::Unhealthy(e) if e == "no such table: tasks"
    ));
}
