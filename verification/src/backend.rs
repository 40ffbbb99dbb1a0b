//! The standard subject verbs over tasks.
use crate::clock::{is_utc_time, lemma_some_utc_time, now_rfc3339};
use crate::config::SUBJECT_KIND;
use crate::methods::dispatch::{found_view, stored_view, Write, WriteModel};
use crate::methods::kind::{bare_id, strip_kind_prefix};
use crate::methods::patch::{
    apply_patch_at, apply_plain_patch, holds, patched, string_array, strings_at,
};
use crate::methods::view::{
    native_status, normalize_status, normalized, subject_of, subject_view, text_or,
};
use crate::store::crud::{
    row_model, stamp_update, stamped, task_row, RowModel, TaskRow, DEFAULT_ACTOR,
};
use crate::text::{same, string_view};
use crate::value::{
    items_view, json_strings, or_else, owned_view, string_value, string_views, strings_among,
    strings_in, strings_value, Json, Object, Value,
};
use vstd::prelude::*;

verus! {

/// The normalized status of a subject.
#[derive(Debug, Clone, Copy, PartialEq, Eq, Structural)]
pub enum SubjectStatus {
    Ready,
    InProgress,
    Blocked,
    Done,
    Cancelled,
}

/// What went wrong in a subject verb.
#[derive(Debug)]
pub enum BackendError {
    /// There is no subject of this id.
    NotFound(String),
    /// Anything else.
    Other(String),
}

/// The model of a [`BackendError`].
pub enum BackendFault {
    NotFound(Seq<char>),
    Other(Seq<char>),
}

impl BackendError {
    pub open spec fn view(&self) -> BackendFault {
        match self {
            BackendError::NotFound(id) => BackendFault::NotFound(id@),
            BackendError::Other(message) => BackendFault::Other(message@),
        }
    }
}

// ---------------------------------------------------------------------
// List
// ---------------------------------------------------------------------

/// What a listing can ask for. An empty list asks for nothing.
#[derive(Debug)]
pub struct SubjectFilter {
    pub status: Vec<SubjectStatus>,
    pub kind: Vec<String>,
    pub labels_any: Vec<String>,
    pub labels_all: Vec<String>,
    pub native_status: Vec<String>,
    pub dispatch_label: Vec<String>,
    pub has_attachment_kind: Vec<String>,
    pub limit: Option<u32>,
}

/// What a filter looks at in a subject.
#[derive(Debug)]
pub struct SubjectFacts {
    pub status: SubjectStatus,
    pub kind: String,
    pub labels: Vec<String>,
    pub native_status: String,
    pub dispatch_label: Option<String>,
    pub attachment_kinds: Vec<String>,
}

/// The model of [`SubjectFacts`].
pub struct FactsModel {
    pub status: SubjectStatus,
    pub kind: Seq<char>,
    pub labels: Seq<Seq<char>>,
    pub native_status: Seq<char>,
    pub dispatch_label: Option<Seq<char>>,
    pub attachment_kinds: Seq<Seq<char>>,
}

impl SubjectFacts {
    pub open spec fn view(&self) -> FactsModel {
        FactsModel {
            status: self.status,
            kind: self.kind@,
            labels: string_views(self.labels@),
            native_status: self.native_status@,
            dispatch_label: string_view(self.dispatch_label),
            attachment_kinds: string_views(self.attachment_kinds@),
        }
    }
}

/// Whether one of the words is among those that are wanted.
pub open spec fn overlap(words: Seq<Seq<char>>, wanted: Seq<Seq<char>>) -> bool {
    exists|i: int| 0 <= i < words.len() && wanted.contains(#[trigger] words[i])
}

/// Whether a subject has what a filter asks for.
pub open spec fn admits(filter: SubjectFilter, subject: FactsModel) -> bool {
    let labels = subject.labels;
    let any = string_views(filter.labels_any@);
    let all = string_views(filter.labels_all@);
    let asked = string_views(filter.has_attachment_kind@);
    &&& filter.status@.len() == 0 || filter.status@.contains(subject.status)
    &&& filter.kind@.len() == 0 || string_views(filter.kind@).contains(subject.kind)
    &&& any.len() == 0 || overlap(labels, any)
    &&& forall|i: int| 0 <= i < all.len() ==> labels.contains(#[trigger] all[i])
    &&& filter.native_status@.len() == 0 || string_views(filter.native_status@).contains(
        subject.native_status,
    )
    &&& filter.dispatch_label@.len() == 0 || (subject.dispatch_label matches Some(label)
        && string_views(filter.dispatch_label@).contains(label))
    &&& asked.len() == 0 || overlap(subject.attachment_kinds, asked)
}

/// The places of the subjects that have what a filter asks for.
pub open spec fn admitted(subjects: Seq<FactsModel>, filter: SubjectFilter) -> Seq<int>
    decreases subjects.len(),
{
    if subjects.len() == 0 {
        Seq::empty()
    } else if admits(filter, subjects.last()) {
        admitted(subjects.drop_last(), filter).push(subjects.len() - 1)
    } else {
        admitted(subjects.drop_last(), filter)
    }
}

/// The places of the subjects that a listing shows.
pub open spec fn selected(subjects: Seq<FactsModel>, filter: SubjectFilter) -> Seq<int> {
    let places = admitted(subjects, filter);
    let limit = or_else(filter.limit, u32::MAX) as int;
    if places.len() > limit {
        places.take(limit)
    } else {
        places
    }
}

/// The normalized status of a native one.
pub open spec fn status_of(native: Seq<char>) -> SubjectStatus {
    if normalized(native) == "in-progress"@ {
        SubjectStatus::InProgress
    } else if normalized(native) == "blocked"@ {
        SubjectStatus::Blocked
    } else if normalized(native) == "done"@ {
        SubjectStatus::Done
    } else if normalized(native) == "cancelled"@ {
        SubjectStatus::Cancelled
    } else {
        SubjectStatus::Ready
    }
}

/// What a filter looks at in the subject of a task, which has neither a dispatch label nor
/// attachments.
pub open spec fn facts_of(task: Json) -> FactsModel {
    FactsModel {
        status: status_of(native_status(task)),
        kind: "task"@,
        labels: strings_at(task, "tags"@),
        native_status: native_status(task),
        dispatch_label: None,
        attachment_kinds: Seq::empty(),
    }
}

/// What a filter looks at in the subject of a task.
pub fn task_facts(task: &Value) -> (facts: SubjectFacts)
    ensures
        facts@ == facts_of(task@),
{
    let native = text_or(task, "status", "backlog");
    let status = normalize_status(native);
    let attachment_kinds: Vec<String> = Vec::new();
    assert(string_views(attachment_kinds@) =~= Seq::<Seq<char>>::empty());
    SubjectFacts {
        status: if same(status, "in-progress") {
            SubjectStatus::InProgress
        } else if same(status, "blocked") {
            SubjectStatus::Blocked
        } else if same(status, "done") {
            SubjectStatus::Done
        } else if same(status, "cancelled") {
            SubjectStatus::Cancelled
        } else {
            SubjectStatus::Ready
        },
        kind: SUBJECT_KIND.to_string(),
        labels: string_array(task, "tags"),
        native_status: native.to_string(),
        dispatch_label: None,
        attachment_kinds,
    }
}

/// The names that a member of a filter document gives: those of an array, or a single one.
pub open spec fn names_at(document: Json, key: Seq<char>) -> Seq<Seq<char>> {
    match document.field(key) {
        Some(Json::String(name)) => seq![name],
        Some(Json::Array(items)) => strings_among(items),
        _ => Seq::empty(),
    }
}

/// The names that a member of a filter document gives.
pub fn filter_names(document: &Value, key: &str) -> (names: Vec<String>)
    ensures
        string_views(names@) == names_at(document@, key@),
{
    match document.get(key) {
        Some(Value::String(name)) => {
            let mut names: Vec<String> = Vec::new();
            names.push(name.clone());
            assert(string_views(names@) =~= seq![name@]);
            names
        },
        Some(Value::Array(items)) => strings_in(items),
        _ => {
            let names: Vec<String> = Vec::new();
            assert(string_views(names@) =~= Seq::<Seq<char>>::empty());
            names
        },
    }
}

fn status_among(statuses: &Vec<SubjectStatus>, status: SubjectStatus) -> (yes: bool)
    ensures
        yes == statuses@.contains(status),
{
    for i in 0..statuses.len()
        invariant
            forall|j: int| 0 <= j < i ==> statuses[j] != status,
    {
        if statuses[i] == status {
            return true;
        }
    }
    false
}

fn shares(strings: &Vec<String>, wanted: &Vec<String>) -> (yes: bool)
    ensures
        yes == overlap(string_views(strings@), string_views(wanted@)),
{
    let ghost have = string_views(strings@);
    let ghost want = string_views(wanted@);
    for i in 0..strings.len()
        invariant
            have == string_views(strings@),
            want == string_views(wanted@),
            forall|j: int| 0 <= j < i ==> !want.contains(#[trigger] have[j]),
    {
        if holds(wanted, strings[i].as_str()) {
            assert(want.contains(have[i as int]));
            return true;
        }
    }
    false
}

/// Whether a subject has what a filter asks for.
pub fn matches_filter(filter: &SubjectFilter, subject: &SubjectFacts) -> (yes: bool)
    ensures
        yes == admits(*filter, subject@),
{
    let ghost labels = string_views(subject.labels@);
    let ghost all = string_views(filter.labels_all@);
    if filter.status.len() > 0 && !status_among(&filter.status, subject.status) {
        return false;
    }
    if filter.kind.len() > 0 && !holds(&filter.kind, subject.kind.as_str()) {
        return false;
    }
    if filter.native_status.len() > 0 && !holds(
        &filter.native_status,
        subject.native_status.as_str(),
    ) {
        return false;
    }
    if filter.dispatch_label.len() > 0 {
        match &subject.dispatch_label {
            Some(label) => {
                if !holds(&filter.dispatch_label, label.as_str()) {
                    return false;
                }
            },
            None => {
                return false;
            },
        }
    }
    if filter.labels_any.len() > 0 && !shares(&subject.labels, &filter.labels_any) {
        return false;
    }
    if filter.has_attachment_kind.len() > 0 && !shares(
        &subject.attachment_kinds,
        &filter.has_attachment_kind,
    ) {
        return false;
    }
    for i in 0..filter.labels_all.len()
        invariant
            labels == string_views(subject.labels@),
            all == string_views(filter.labels_all@),
            forall|j: int| 0 <= j < i ==> labels.contains(#[trigger] all[j]),
    {
        if !holds(&subject.labels, filter.labels_all[i].as_str()) {
            assert(!labels.contains(all[i as int]));
            return false;
        }
    }
    true
}

/// The model of each of several subjects.
pub open spec fn facts_view(subjects: Seq<SubjectFacts>) -> Seq<FactsModel> {
    subjects.map_values(|s: SubjectFacts| s@)
}

/// The places of the subjects that a listing shows: those that have what the filter asks for,
/// in their order, up to its limit.
pub fn select(subjects: &Vec<SubjectFacts>, filter: &SubjectFilter) -> (places: Vec<usize>)
    ensures
        places@.map_values(|p: usize| p as int) == selected(facts_view(subjects@), *filter),
{
    let ghost all = facts_view(subjects@);
    let limit: usize = match filter.limit {
        Some(n) => n as usize,
        None => u32::MAX as usize,
    };
    let mut places: Vec<usize> = Vec::new();
    assert(places@.map_values(|p: usize| p as int) =~= admitted(all.take(0), *filter));
    for i in 0..subjects.len()
        invariant
            all == facts_view(subjects@),
            places@.map_values(|p: usize| p as int) == admitted(all.take(i as int), *filter),
    {
        assert(all.take(i + 1).drop_last() == all.take(i as int));
        assert(all.take(i + 1).last() == subjects@[i as int]@);
        if matches_filter(filter, &subjects[i]) {
            let ghost before = places@;
            places.push(i);
            assert(places@.map_values(|p: usize| p as int) =~= before.map_values(
                |p: usize| p as int,
            ).push(i as int));
        }
    }
    assert(all.take(all.len() as int) == all);
    places.truncate(limit);
    assert(places@.map_values(|p: usize| p as int) =~= selected(all, *filter));
    places
}

/// The places of the tasks that a listing shows: those whose subjects have what the filter asks
/// for, in their order, up to its limit.
pub fn list(tasks: &Vec<Value>, filter: &SubjectFilter) -> (places: Vec<usize>)
    ensures
        places@.map_values(|p: usize| p as int) == selected(
            items_view(tasks@).map_values(|t: Json| facts_of(t)),
            *filter,
        ),
{
    let mut subjects: Vec<SubjectFacts> = Vec::new();
    for i in 0..tasks.len()
        invariant
            subjects.len() == i,
            forall|j: int| 0 <= j < i ==> (#[trigger] subjects[j])@ == facts_of(tasks[j]@),
    {
        subjects.push(task_facts(&tasks[i]));
    }
    assert(facts_view(subjects@) =~= items_view(tasks@).map_values(|t: Json| facts_of(t)));
    select(&subjects, filter)
}

// ---------------------------------------------------------------------
// Get
// ---------------------------------------------------------------------

/// The subject of an id, after its task was read, or could not be.
pub fn get(id: &str, found: &Result<Value, String>) -> (subject: Result<Value, BackendError>)
    ensures
        match subject {
            Ok(subject) => found matches Ok(task) && subject@ == subject_of(task@),
            Err(e) => found is Err && e@ == BackendFault::NotFound(id@),
        },
{
    match found {
        Ok(task) => Ok(subject_view(task)),
        Err(_) => Err(BackendError::NotFound(id.to_string())),
    }
}

// ---------------------------------------------------------------------
// Update
// ---------------------------------------------------------------------

/// A patch to a subject.
#[derive(Debug)]
pub struct SubjectPatch {
    pub status: Option<SubjectStatus>,
    pub assignee: Option<Value>,
    pub labels_add: Vec<String>,
    pub labels_remove: Vec<String>,
    pub comment: Option<String>,
    pub custom: Object,
}

/// The model of a [`SubjectPatch`].
pub struct PatchModel {
    pub status: Option<SubjectStatus>,
    pub assignee: Option<Json>,
    pub labels_add: Seq<Seq<char>>,
    pub labels_remove: Seq<Seq<char>>,
    pub comment: Option<Seq<char>>,
    pub custom: Map<Seq<char>, Json>,
}

impl SubjectPatch {
    pub open spec fn view(&self) -> PatchModel {
        PatchModel {
            status: self.status,
            assignee: owned_view(self.assignee),
            labels_add: string_views(self.labels_add@),
            labels_remove: string_views(self.labels_remove@),
            comment: string_view(self.comment),
            custom: self.custom@,
        }
    }
}

/// The native status that a normalized one is written as.
pub open spec fn written_status(status: SubjectStatus) -> Seq<char> {
    match status {
        SubjectStatus::Ready => "ready"@,
        SubjectStatus::InProgress => "in-progress"@,
        SubjectStatus::Blocked => "blocked"@,
        SubjectStatus::Done => "completed"@,
        SubjectStatus::Cancelled => "cancelled"@,
    }
}

/// The native status that a normalized one is written as.
pub fn native_name(status: SubjectStatus) -> (name: &'static str)
    ensures
        name@ == written_status(status),
{
    match status {
        SubjectStatus::Ready => "ready",
        SubjectStatus::InProgress => "in-progress",
        SubjectStatus::Blocked => "blocked",
        SubjectStatus::Done => "completed",
        SubjectStatus::Cancelled => "cancelled",
    }
}

/// The task patch that a subject patch stands for. Only what the patch gives is in it.
pub open spec fn patch_document(patch: PatchModel) -> Json {
    let out = Json::Object(Map::empty());
    let out = match patch.status {
        Some(status) => out.with("status"@, Json::String(written_status(status))),
        None => out,
    };
    let out = match patch.assignee {
        Some(assignee) => out.with("assignee"@, assignee),
        None => out,
    };
    let out = if patch.labels_add.len() > 0 || patch.labels_remove.len() > 0 {
        out.with("labels_add"@, json_strings(patch.labels_add)).with(
            "labels_remove"@,
            json_strings(patch.labels_remove),
        )
    } else {
        out
    };
    let out = match patch.comment {
        Some(comment) => out.with("comment"@, Json::String(comment)),
        None => out,
    };
    if patch.custom == Map::<Seq<char>, Json>::empty() {
        out
    } else {
        out.with("custom"@, Json::Object(patch.custom))
    }
}

/// The task patch that a subject patch stands for.
pub fn subject_patch_to_value(patch: &SubjectPatch) -> (value: Value)
    ensures
        value@ == patch_document(patch@),
{
    let mut out = Value::Object(Object::new());
    if let Some(status) = patch.status {
        out.set("status", string_value(native_name(status)));
    }
    if let Some(assignee) = &patch.assignee {
        out.set("assignee", assignee.clone());
    }
    if patch.labels_add.len() > 0 || patch.labels_remove.len() > 0 {
        out.set("labels_add", strings_value(&patch.labels_add));
        out.set("labels_remove", strings_value(&patch.labels_remove));
    }
    if let Some(comment) = &patch.comment {
        out.set("comment", string_value(comment.as_str()));
    }
    if !patch.custom.is_empty() {
        out.set("custom", Value::Object(patch.custom.clone()));
    }
    out
}

/// What kind of change is announced.
#[derive(Debug, Clone, Copy, PartialEq, Eq, Structural)]
pub enum ChangeKind {
    StatusChanged,
    Updated,
    Deleted,
}

/// What kind of change a patch is announced as.
pub fn change_kind(patch: &SubjectPatch) -> (kind: ChangeKind)
    ensures
        kind == (if patch@.status is Some {
            ChangeKind::StatusChanged
        } else {
            ChangeKind::Updated
        }),
{
    if patch.status.is_some() {
        ChangeKind::StatusChanged
    } else {
        ChangeKind::Updated
    }
}

/// The task after a subject patch whose status is dated `patched_at` and that is stamped `now`.
pub open spec fn subject_patched(
    task: Json,
    patch: PatchModel,
    patched_at: Seq<char>,
    now: Seq<char>,
) -> Json {
    stamped(patched(task, patch_document(patch), patched_at), now, "animus.subject.default"@)
}

/// The task to store and its row, after it was read, or could not be.
pub open spec fn update_outcome(
    id: Seq<char>,
    found: Result<Json, Seq<char>>,
    patch: PatchModel,
    patched_at: Seq<char>,
    now: Seq<char>,
) -> Result<(Json, RowModel), BackendFault> {
    match found {
        Err(_) => Err(BackendFault::NotFound(id)),
        Ok(task) => {
            let task = subject_patched(task, patch, patched_at, now);
            match task.text("id"@) {
                Some(bare) => Ok((task, row_model(task, bare))),
                None => Err(BackendFault::Other("task json missing id"@)),
            }
        },
    }
}

/// The model of a task to store and its row.
pub open spec fn update_view(outcome: Result<(Value, TaskRow), BackendError>) -> Result<
    (Json, RowModel),
    BackendFault,
> {
    match outcome {
        Ok((task, row)) => Ok((task@, row@)),
        Err(e) => Err(e@),
    }
}

fn rowed(task: Value) -> (outcome: Result<(Value, TaskRow), BackendError>)
    ensures
        update_view(outcome) == (match task@.text("id"@) {
            Some(bare) => Ok((task@, row_model(task@, bare))),
            None => Err(BackendFault::Other("task json missing id"@)),
        }),
{
    match task_row(&task) {
        Some(row) => Ok((task, row)),
        None => Err(BackendError::Other("task json missing id".to_string())),
    }
}

/// Patches a subject at given times, after its task was read, or could not be.
pub fn update_at(
    id: &str,
    found: Result<Value, String>,
    patch: &SubjectPatch,
    patched_at: &str,
    now: &str,
) -> (outcome: Result<(Value, TaskRow), BackendError>)
    ensures
        update_view(outcome) == update_outcome(id@, found_view(found), patch@, patched_at@, now@),
{
    match found {
        Err(_) => Err(BackendError::NotFound(id.to_string())),
        Ok(mut task) => {
            let document = subject_patch_to_value(patch);
            apply_patch_at(&mut task, &document, patched_at);
            stamp_update(&mut task, now, DEFAULT_ACTOR);
            rowed(task)
        },
    }
}

/// Patches a subject now, after its task was read, or could not be. The clock is not read where
/// it could not be.
pub fn update(id: &str, found: Result<Value, String>, patch: &SubjectPatch) -> (outcome: Result<
    (Value, TaskRow),
    BackendError,
>)
    ensures
        exists|patched_at: Seq<char>, now: Seq<char>|
            is_utc_time(patched_at) && is_utc_time(now) && update_view(outcome)
                == #[trigger] update_outcome(id@, found_view(found), patch@, patched_at, now),
{
    let ghost model = found_view(found);
    let ghost mut patched_at: Seq<char> = lemma_some_utc_time();
    let ghost mut stamp: Seq<char> = patched_at;
    let outcome = match found {
        Err(_) => Err(BackendError::NotFound(id.to_string())),
        Ok(mut task) => {
            let ghost before = task@;
            let document = subject_patch_to_value(patch);
            apply_plain_patch(&mut task, &document);
            proof {
                patched_at = choose|at: Seq<char>|
                    is_utc_time(at) && task@ == #[trigger] patched(before, document@, at);
            }
            let now = now_rfc3339();
            proof {
                stamp = now@;
            }
            stamp_update(&mut task, now.as_str(), DEFAULT_ACTOR);
            rowed(task)
        },
    };
    assert(update_view(outcome) == update_outcome(id@, model, patch@, patched_at, stamp));
    outcome
}

// ---------------------------------------------------------------------
// Delete
// ---------------------------------------------------------------------

/// The write that deletes a subject.
pub fn delete(id: &str) -> (write: Write)
    ensures
        write@ == (WriteModel::Delete { id: bare_id(id@) }),
{
    Write::Delete { id: strip_kind_prefix(id) }
}

/// The reply to the deletion of a subject, after its row was deleted, was not there, or could not
/// be deleted.
pub open spec fn deletion_reply(id: Seq<char>, removed: Result<bool, Seq<char>>) -> Result<
    Json,
    BackendFault,
> {
    match removed {
        Ok(true) => Ok(Json::Object(map!["ok"@ => Json::Bool(true)])),
        Ok(false) => Err(BackendFault::NotFound(id)),
        Err(e) => Err(BackendFault::Other(e)),
    }
}

/// The model of a reply of a subject verb.
pub open spec fn verb_view(reply: Result<Value, BackendError>) -> Result<Json, BackendFault> {
    match reply {
        Ok(v) => Ok(v@),
        Err(e) => Err(e@),
    }
}

/// The reply to the deletion of a subject: `{"ok": true}`, or an error where there was no such
/// subject or it could not be deleted.
pub fn deleted(id: &str, removed: &Result<bool, String>) -> (reply: Result<Value, BackendError>)
    ensures
        verb_view(reply) == deletion_reply(id@, stored_view(*removed)),
{
    match removed {
        Ok(true) => {
            let mut reply = Object::new();
            reply.insert("ok", Value::Bool(true));
            Ok(Value::Object(reply))
        },
        Ok(false) => Err(BackendError::NotFound(id.to_string())),
        Err(e) => Err(BackendError::Other(e.clone())),
    }
}

/// What is announced of a subject that was deleted: the subject of its task as it was read before,
/// or, where it could not be read, of a task with nothing but the id. Nothing is announced where no
/// row was deleted.
pub open spec fn deletion_event(
    id: Seq<char>,
    found: Result<Json, Seq<char>>,
    removed: Result<bool, Seq<char>>,
) -> Option<(ChangeKind, Json)> {
    if removed == Ok::<bool, Seq<char>>(true) {
        let task = match found {
            Ok(task) => task,
            Err(_) => Json::Object(map!["id"@ => Json::String(bare_id(id))]),
        };
        Some((ChangeKind::Deleted, subject_of(task)))
    } else {
        None
    }
}

/// What is announced of a subject that was deleted.
pub fn announced_deletion(
    id: &str,
    found: &Result<Value, String>,
    removed: &Result<bool, String>,
) -> (event: Option<(ChangeKind, Value)>)
    ensures
        match event {
            Some((kind, subject)) => deletion_event(
                id@,
                found_view(*found),
                stored_view(*removed),
            ) == Some((kind, subject@)),
            None => deletion_event(id@, found_view(*found), stored_view(*removed)) is None,
        },
{
    match removed {
        Ok(true) => {
            let subject = match found {
                Ok(task) => subject_view(task),
                Err(_) => {
                    let mut task = Object::new();
                    task.insert("id", Value::String(strip_kind_prefix(id)));
                    subject_view(&Value::Object(task))
                },
            };
            Some((ChangeKind::Deleted, subject))
        },
        _ => None,
    }
}

// ---------------------------------------------------------------------
// Schema
// ---------------------------------------------------------------------

/// What a custom field holds.
#[derive(Debug, Clone, Copy, PartialEq, Eq, Structural)]
pub enum CustomFieldKind {
    String,
    Enum,
    Bool,
    Date,
}

/// A custom field of a subject.
#[derive(Debug)]
pub struct CustomFieldSpec {
    pub key: String,
    pub kind: CustomFieldKind,
    pub values: Option<Vec<String>>,
}

/// What this backend can do.
#[derive(Debug)]
pub struct SubjectSchema {
    pub kinds: Vec<String>,
    pub status_values: Vec<SubjectStatus>,
    pub supports_watch: bool,
    pub supports_create: bool,
    pub supports_pagination: bool,
    pub native_status_values: Vec<String>,
    pub custom_fields: Vec<CustomFieldSpec>,
}

/// The model of a [`CustomFieldSpec`].
pub struct FieldModel {
    pub key: Seq<char>,
    pub kind: CustomFieldKind,
    pub values: Option<Seq<Seq<char>>>,
}

impl CustomFieldSpec {
    pub open spec fn view(&self) -> FieldModel {
        FieldModel {
            key: self.key@,
            kind: self.kind,
            values: match self.values {
                Some(values) => Some(string_views(values@)),
                None => None,
            },
        }
    }
}

/// The custom fields, in the order in which they are declared.
pub open spec fn declared_fields() -> Seq<FieldModel> {
    seq![
        FieldModel { key: "type"@, kind: CustomFieldKind::String, values: None },
        FieldModel {
            key: "risk"@,
            kind: CustomFieldKind::Enum,
            values: Some(seq!["low"@, "medium"@, "high"@]),
        },
        FieldModel {
            key: "scope"@,
            kind: CustomFieldKind::Enum,
            values: Some(seq!["small"@, "medium"@, "large"@]),
        },
        FieldModel { key: "paused"@, kind: CustomFieldKind::Bool, values: None },
        FieldModel { key: "cancelled"@, kind: CustomFieldKind::Bool, values: None },
        FieldModel { key: "deadline"@, kind: CustomFieldKind::Date, values: None },
        FieldModel { key: "assignee"@, kind: CustomFieldKind::String, values: None },
        FieldModel { key: "checklist"@, kind: CustomFieldKind::String, values: None },
        FieldModel { key: "dependencies"@, kind: CustomFieldKind::String, values: None },
        FieldModel { key: "blocked_at"@, kind: CustomFieldKind::Date, values: None },
        FieldModel { key: "blocked_reason"@, kind: CustomFieldKind::String, values: None },
        FieldModel { key: "blocked_by"@, kind: CustomFieldKind::String, values: None },
        FieldModel { key: "linked_requirements"@, kind: CustomFieldKind::String, values: None },
        FieldModel {
            key: "linked_architecture_entities"@,
            kind: CustomFieldKind::String,
            values: None,
        },
    ]
}

fn plain_field(key: &str, kind: CustomFieldKind) -> (field: CustomFieldSpec)
    ensures
        field@ == (FieldModel { key: key@, kind, values: None }),
{
    CustomFieldSpec { key: key.to_string(), kind, values: None }
}

fn enum_field(key: &str, first: &str, second: &str, third: &str) -> (field: CustomFieldSpec)
    ensures
        field@ == (FieldModel {
            key: key@,
            kind: CustomFieldKind::Enum,
            values: Some(seq![first@, second@, third@]),
        }),
{
    let mut values: Vec<String> = Vec::new();
    values.push(first.to_string());
    values.push(second.to_string());
    values.push(third.to_string());
    assert(string_views(values@) =~= seq![first@, second@, third@]);
    CustomFieldSpec { key: key.to_string(), kind: CustomFieldKind::Enum, values: Some(values) }
}

fn custom_fields() -> (fields: Vec<CustomFieldSpec>)
    ensures
        fields@.map_values(|f: CustomFieldSpec| f@) == declared_fields(),
{
    let mut fields: Vec<CustomFieldSpec> = Vec::new();
    fields.push(plain_field("type", CustomFieldKind::String));
    fields.push(enum_field("risk", "low", "medium", "high"));
    fields.push(enum_field("scope", "small", "medium", "large"));
    fields.push(plain_field("paused", CustomFieldKind::Bool));
    fields.push(plain_field("cancelled", CustomFieldKind::Bool));
    fields.push(plain_field("deadline", CustomFieldKind::Date));
    fields.push(plain_field("assignee", CustomFieldKind::String));
    fields.push(plain_field("checklist", CustomFieldKind::String));
    fields.push(plain_field("dependencies", CustomFieldKind::String));
    fields.push(plain_field("blocked_at", CustomFieldKind::Date));
    fields.push(plain_field("blocked_reason", CustomFieldKind::String));
    fields.push(plain_field("blocked_by", CustomFieldKind::String));
    fields.push(plain_field("linked_requirements", CustomFieldKind::String));
    fields.push(plain_field("linked_architecture_entities", CustomFieldKind::String));
    assert(fields@.map_values(|f: CustomFieldSpec| f@) =~= declared_fields());
    fields
}

/// What this backend can do: tasks in five statuses, with watching and creation and without
/// pagination.
pub fn schema() -> (schema: SubjectSchema)
    ensures
        string_views(schema.kinds@) == seq!["task"@],
        schema.status_values@ == seq![
            SubjectStatus::Ready,
            SubjectStatus::InProgress,
            SubjectStatus::Blocked,
            SubjectStatus::Done,
            SubjectStatus::Cancelled,
        ],
        schema.supports_watch,
        schema.supports_create,
        !schema.supports_pagination,
        string_views(schema.native_status_values@) == seq![
            "backlog"@,
            "ready"@,
            "in-progress"@,
            "blocked"@,
            "completed"@,
            "cancelled"@,
        ],
        schema.custom_fields@.map_values(|f: CustomFieldSpec| f@) == declared_fields(),
{
    let mut kinds: Vec<String> = Vec::new();
    kinds.push(SUBJECT_KIND.to_string());
    assert(string_views(kinds@) =~= seq!["task"@]);
    let mut status_values: Vec<SubjectStatus> = Vec::new();
    status_values.push(SubjectStatus::Ready);
    status_values.push(SubjectStatus::InProgress);
    status_values.push(SubjectStatus::Blocked);
    status_values.push(SubjectStatus::Done);
    status_values.push(SubjectStatus::Cancelled);
    let mut native: Vec<String> = Vec::new();
    native.push("backlog".to_string());
    native.push("ready".to_string());
    native.push("in-progress".to_string());
    native.push("blocked".to_string());
    native.push("completed".to_string());
    native.push("cancelled".to_string());
    assert(string_views(native@) =~= seq![
        "backlog"@,
        "ready"@,
        "in-progress"@,
        "blocked"@,
        "completed"@,
        "cancelled"@,
    ]);
    SubjectSchema {
        kinds,
        status_values,
        supports_watch: true,
        supports_create: true,
        supports_pagination: false,
        native_status_values: native,
        custom_fields: custom_fields(),
    }
}

// ---------------------------------------------------------------------
// Health
// ---------------------------------------------------------------------

/// Whether the backend works.
#[derive(Debug)]
pub enum Health {
    Healthy,
    /// It does not, and this is what went wrong last.
    Unhealthy(String),
}

/// The health that a read of all tasks shows.
pub fn health(listed: &Result<Vec<Value>, String>) -> (health: Health)
    ensures
        match health {
            Health::Healthy => listed is Ok,
            Health::Unhealthy(e) => listed matches Err(error) && e@ == error@,
        },
{
    match listed {
        Ok(_) => Health::Healthy,
        Err(e) => Health::Unhealthy(e.clone()),
    }
}

} // verus!
