//! The dispatcher of the task methods.
//!
//! A request is answered in steps. Each step either is the reply or says what the task table has
//! to be asked next; the answer of the table leads to the step after it.
use crate::clock::{is_utc_time, lemma_some_utc_time, now_rfc3339};
use crate::methods::change::{change_task, change_task_at, changed, Change, ChangeModel};
use crate::methods::kind::{add_kind_prefix, bare_id, strip_kind_prefix, wire_id};
use crate::methods::listing::{
    limited, list, list_prioritized, next, next_task, of_status, page, prioritized, statistics,
    statistics_of, subjects_of,
};
use crate::methods::patch::{
    canonical, canonical_priority, in_status, set_status_field, string_array, strings_at,
};
use crate::methods::view::{subject_of, subject_view};
use crate::rpc::{
    internal, internal_fault, invalid, invalid_fault, not_found, not_found_fault, reply_view, Fault,
    RpcError,
};
use crate::store::crud::{
    build_new_task, new_task, row_model, task_row, RowModel, TaskRow, DEFAULT_ACTOR,
};
use crate::store::id_gen::{next_id, next_sequential_id, texts};
use crate::text::{joined, same, str_view, string_view, strip_prefix, stripped, trim, trimmed};
use crate::value::{items_view, or_else, owned_view, string_views, value_view, Json, Object, Value};
use vstd::prelude::*;

verus! {

/// A question over all tasks.
#[derive(Debug)]
pub enum Listing {
    List { limit: Option<usize>, status: Option<String> },
    Prioritized,
    Next,
    Statistics,
}

/// The model of a [`Listing`].
pub enum ListingModel {
    List { limit: Option<usize>, status: Option<Seq<char>> },
    Prioritized,
    Next,
    Statistics,
}

impl Listing {
    pub open spec fn view(&self) -> ListingModel {
        match self {
            Listing::List { limit, status } => ListingModel::List {
                limit: *limit,
                status: string_view(*status),
            },
            Listing::Prioritized => ListingModel::Prioritized,
            Listing::Next => ListingModel::Next,
            Listing::Statistics => ListingModel::Statistics,
        }
    }
}

/// A task that is to be created.
#[derive(Debug)]
pub struct Draft {
    pub title: String,
    pub description: String,
    pub priority: Option<String>,
    pub task_type: Option<String>,
    pub tags: Vec<String>,
    pub linked_requirements: Vec<String>,
    pub linked_architecture_entities: Vec<String>,
    pub created_by: Option<String>,
    pub status: Option<String>,
}

/// The model of a [`Draft`].
#[verifier::ext_equal]
pub struct DraftModel {
    pub title: Seq<char>,
    pub description: Seq<char>,
    pub priority: Option<Seq<char>>,
    pub task_type: Option<Seq<char>>,
    pub tags: Seq<Seq<char>>,
    pub linked_requirements: Seq<Seq<char>>,
    pub linked_architecture_entities: Seq<Seq<char>>,
    pub created_by: Option<Seq<char>>,
    pub status: Option<Seq<char>>,
}

impl Draft {
    pub open spec fn view(&self) -> DraftModel {
        DraftModel {
            title: self.title@,
            description: self.description@,
            priority: string_view(self.priority),
            task_type: string_view(self.task_type),
            tags: string_views(self.tags@),
            linked_requirements: string_views(self.linked_requirements@),
            linked_architecture_entities: string_views(self.linked_architecture_entities@),
            created_by: string_view(self.created_by),
            status: string_view(self.status),
        }
    }
}

/// A write to the task table.
#[derive(Debug)]
pub enum Write {
    /// Insert or replace the row of `task`; `action` names what it is for.
    Upsert { task: Value, row: TaskRow, action: String },
    /// Delete the row with this id.
    Delete { id: String },
}

/// The model of a [`Write`].
pub enum WriteModel {
    Upsert { task: Json, row: RowModel, action: Seq<char> },
    Delete { id: Seq<char> },
}

impl Write {
    pub open spec fn view(&self) -> WriteModel {
        match self {
            Write::Upsert { task, row, action } => WriteModel::Upsert {
                task: task@,
                row: row@,
                action: action@,
            },
            Write::Delete { id } => WriteModel::Delete { id: id@ },
        }
    }
}

/// A step in the answer to a request.
#[derive(Debug)]
pub enum Step {
    /// The reply.
    Reply(Result<Value, RpcError>),
    /// Read every task, in the order of their ids.
    ReadAll(Listing),
    /// Read the ids in use.
    ReadIds(Draft),
    /// Read one task, to show it, or to change it where a change is given.
    ReadTask { id: String, change: Option<Change> },
    /// Write to the table.
    Write(Write),
}

/// The model of a [`Step`].
pub enum StepModel {
    Reply(Result<Json, Fault>),
    ReadAll(ListingModel),
    ReadIds(DraftModel),
    ReadTask { id: Seq<char>, change: Option<ChangeModel> },
    Write(WriteModel),
}

impl Step {
    pub open spec fn view(&self) -> StepModel {
        match self {
            Step::Reply(reply) => StepModel::Reply(reply_view(*reply)),
            Step::ReadAll(listing) => StepModel::ReadAll(listing@),
            Step::ReadIds(draft) => StepModel::ReadIds(draft@),
            Step::ReadTask { id, change } => StepModel::ReadTask {
                id: id@,
                change: match change {
                    Some(c) => Some(c@),
                    None => None,
                },
            },
            Step::Write(write) => StepModel::Write(write@),
        }
    }
}

// ---------------------------------------------------------------------
// Parameters
// ---------------------------------------------------------------------

/// The parameter `key`.
pub open spec fn param(params: Option<Json>, key: Seq<char>) -> Option<Json> {
    match params {
        Some(p) => p.field(key),
        None => None,
    }
}

/// The parameter `key`, where it is a string.
pub open spec fn param_text(params: Option<Json>, key: Seq<char>) -> Option<Seq<char>> {
    match params {
        Some(p) => p.text(key),
        None => None,
    }
}

/// The parameter `key`.
pub fn get_param<'a>(params: &'a Option<Value>, key: &str) -> (value: Option<&'a Value>)
    ensures
        value_view(value) == param(owned_view(*params), key@),
{
    match params {
        Some(p) => p.get(key),
        None => None,
    }
}

fn get_text<'a>(params: &'a Option<Value>, key: &str) -> (s: Option<&'a str>)
    ensures
        str_view(s) == param_text(owned_view(*params), key@),
{
    match params {
        Some(p) => p.text(key),
        None => None,
    }
}

/// The parameter `key`, where it is a string.
pub fn get_string(params: &Option<Value>, key: &str) -> (s: Option<String>)
    ensures
        string_view(s) == param_text(owned_view(*params), key@),
{
    match get_text(params, key) {
        Some(s) => Some(s.to_string()),
        None => None,
    }
}

/// The bare id that a request names.
pub open spec fn requested_id(params: Option<Json>) -> Result<Seq<char>, Fault> {
    match param_text(params, "id"@) {
        None => Err(invalid_fault("task call requires --id"@)),
        Some(id) => if trimmed(id).len() == 0 {
            Err(invalid_fault("task --id must not be empty"@))
        } else {
            Ok(bare_id(trimmed(id)))
        },
    }
}

/// The bare id that a request names. White space around it does not count.
pub fn require_id(params: &Option<Value>) -> (id: Result<String, RpcError>)
    ensures
        match id {
            Ok(id) => requested_id(owned_view(*params)) == Ok::<Seq<char>, Fault>(id@),
            Err(e) => requested_id(owned_view(*params)) == Err::<Seq<char>, Fault>(e@),
        },
{
    match get_text(params, "id") {
        None => Err(invalid("task call requires --id")),
        Some(id) => {
            let id = trim(id);
            if id.is_empty() {
                Err(invalid("task --id must not be empty"))
            } else {
                Ok(strip_kind_prefix(id))
            }
        },
    }
}

/// The patch of a request: its parameter `patch`, or else all its parameters.
pub open spec fn requested_patch(params: Option<Json>) -> Json {
    match param(params, "patch"@) {
        Some(patch) => patch,
        None => or_else(params, Json::Null),
    }
}

/// The patch of a request.
pub fn patch_value(params: &Option<Value>) -> (patch: Value)
    ensures
        patch@ == requested_patch(owned_view(*params)),
{
    match get_param(params, "patch") {
        Some(patch) => patch.clone(),
        None => match params {
            Some(p) => p.clone(),
            None => Value::Null,
        },
    }
}

/// The status that a listing asks for: a string, or the first item of an array.
pub open spec fn requested_status(params: Option<Json>) -> Option<Seq<char>> {
    match param(params, "status"@) {
        Some(Json::Array(items)) => if items.len() > 0 {
            items[0].as_str()
        } else {
            None
        },
        Some(Json::String(s)) => Some(s),
        _ => None,
    }
}

/// The status that a listing asks for.
pub fn first_status(params: &Option<Value>) -> (status: Option<String>)
    ensures
        string_view(status) == requested_status(owned_view(*params)),
{
    match get_param(params, "status") {
        Some(Value::Array(items)) => {
            assert(items_view(items@).len() == items.len());
            if items.len() > 0 {
                assert(items_view(items@)[0] == items[0]@);
                match items[0].as_str() {
                    Some(s) => Some(s.to_string()),
                    None => None,
                }
            } else {
                None
            }
        },
        Some(Value::String(s)) => Some(s.clone()),
        _ => None,
    }
}

/// The limit that a listing asks for.
pub open spec fn requested_limit(params: Option<Json>) -> Option<usize> {
    match param(params, "limit"@) {
        Some(v) => match v.as_u64() {
            Some(n) => Some(n as usize),
            None => None,
        },
        None => None,
    }
}

fn limit_param(params: &Option<Value>) -> (limit: Option<usize>)
    ensures
        limit == requested_limit(owned_view(*params)),
{
    match get_param(params, "limit") {
        Some(v) => match v.as_u64() {
            Some(n) => Some(n as usize),
            None => None,
        },
        None => None,
    }
}

/// Who a request says it comes from.
pub open spec fn requested_actor(params: Option<Json>) -> Seq<char> {
    or_else(param_text(params, "updated_by"@), "animus.subject.default"@)
}

fn actor(params: &Option<Value>) -> (by: String)
    ensures
        by@ == requested_actor(owned_view(*params)),
{
    match get_text(params, "updated_by") {
        Some(by) => by.to_string(),
        None => DEFAULT_ACTOR.to_string(),
    }
}

// ---------------------------------------------------------------------
// First steps
// ---------------------------------------------------------------------

/// Reading a task for a change, where the request says both.
pub open spec fn change_step(
    id: Result<Seq<char>, Fault>,
    change: Result<ChangeModel, Fault>,
) -> StepModel {
    match id {
        Err(e) => StepModel::Reply(Err(e)),
        Ok(id) => match change {
            Err(e) => StepModel::Reply(Err(e)),
            Ok(change) => StepModel::ReadTask { id, change: Some(change) },
        },
    }
}

/// The model of a change that a request may or may not say.
pub open spec fn change_view(change: Result<Change, RpcError>) -> Result<ChangeModel, Fault> {
    match change {
        Ok(c) => Ok(c@),
        Err(e) => Err(e@),
    }
}

fn read_for_change(params: &Option<Value>, change: Result<Change, RpcError>) -> (step: Step)
    ensures
        step@ == change_step(requested_id(owned_view(*params)), change_view(change)),
{
    match require_id(params) {
        Err(e) => Step::Reply(Err(e)),
        Ok(id) => match change {
            Err(e) => Step::Reply(Err(e)),
            Ok(change) => Step::ReadTask { id, change: Some(change) },
        },
    }
}

/// The change of an `assign` request.
pub open spec fn assign_change(params: Option<Json>) -> Result<ChangeModel, Fault> {
    match param_text(params, "assignee"@) {
        Some(assignee) => Ok(ChangeModel::Assign { assignee }),
        None => Err(invalid_fault("task assign requires --assignee"@)),
    }
}

/// The change of an `assign` request.
pub fn assign(params: &Option<Value>) -> (change: Result<Change, RpcError>)
    ensures
        change_view(change) == assign_change(owned_view(*params)),
{
    match get_string(params, "assignee") {
        Some(assignee) => Ok(Change::Assign { assignee }),
        None => Err(invalid("task assign requires --assignee")),
    }
}

/// The change of a `status` request.
pub open spec fn status_change(params: Option<Json>) -> Result<ChangeModel, Fault> {
    match param_text(params, "status"@) {
        Some(status) => Ok(ChangeModel::Status { status }),
        None => Err(invalid_fault("task status requires --status"@)),
    }
}

/// The change of a `status` request.
pub fn status(params: &Option<Value>) -> (change: Result<Change, RpcError>)
    ensures
        change_view(change) == status_change(owned_view(*params)),
{
    match get_string(params, "status") {
        Some(status) => Ok(Change::Status { status }),
        None => Err(invalid("task status requires --status")),
    }
}

/// The change of an `add_checklist_item` request.
pub open spec fn add_item_change(params: Option<Json>) -> Result<ChangeModel, Fault> {
    match param_text(params, "description"@) {
        Some(description) => Ok(
            ChangeModel::AddChecklistItem { description, updated_by: requested_actor(params) },
        ),
        None => Err(invalid_fault("task add_checklist_item requires --description"@)),
    }
}

fn add_item(params: &Option<Value>) -> (change: Result<Change, RpcError>)
    ensures
        change_view(change) == add_item_change(owned_view(*params)),
{
    match get_string(params, "description") {
        Some(description) => Ok(Change::AddChecklistItem { description, updated_by: actor(params) }),
        None => Err(invalid("task add_checklist_item requires --description")),
    }
}

/// The change of an `update_checklist_item` request.
pub open spec fn update_item_change(params: Option<Json>) -> Result<ChangeModel, Fault> {
    match param_text(params, "item_id"@) {
        None => Err(invalid_fault("task update_checklist_item requires --item-id"@)),
        Some(item_id) => match (match params {
            Some(p) => p.flag("completed"@),
            None => None,
        }) {
            None => Err(invalid_fault("task update_checklist_item requires --completed"@)),
            Some(completed) => Ok(
                ChangeModel::UpdateChecklistItem {
                    item_id,
                    completed,
                    updated_by: requested_actor(params),
                },
            ),
        },
    }
}

fn update_item(params: &Option<Value>) -> (change: Result<Change, RpcError>)
    ensures
        change_view(change) == update_item_change(owned_view(*params)),
{
    match get_string(params, "item_id") {
        None => Err(invalid("task update_checklist_item requires --item-id")),
        Some(item_id) => {
            let completed = match params {
                Some(p) => p.flag("completed"),
                None => None,
            };
            match completed {
                None => Err(invalid("task update_checklist_item requires --completed")),
                Some(completed) => Ok(
                    Change::UpdateChecklistItem { item_id, completed, updated_by: actor(params) },
                ),
            }
        },
    }
}

/// The change of an `add_dependency` request.
pub open spec fn add_dependency_change(params: Option<Json>) -> Result<ChangeModel, Fault> {
    match param_text(params, "dependency_id"@) {
        Some(dependency_id) => Ok(
            ChangeModel::AddDependency {
                dependency_id,
                dependency_type: or_else(param_text(params, "dependency_type"@), "blocks"@),
                updated_by: requested_actor(params),
            },
        ),
        None => Err(invalid_fault("task add_dependency requires --dependency-id"@)),
    }
}

fn add_dependency(params: &Option<Value>) -> (change: Result<Change, RpcError>)
    ensures
        change_view(change) == add_dependency_change(owned_view(*params)),
{
    match get_string(params, "dependency_id") {
        Some(dependency_id) => {
            let dependency_type = match get_string(params, "dependency_type") {
                Some(t) => t,
                None => "blocks".to_string(),
            };
            Ok(Change::AddDependency { dependency_id, dependency_type, updated_by: actor(params) })
        },
        None => Err(invalid("task add_dependency requires --dependency-id")),
    }
}

/// The change of a `remove_dependency` request.
pub open spec fn remove_dependency_change(params: Option<Json>) -> Result<ChangeModel, Fault> {
    match param_text(params, "dependency_id"@) {
        Some(dependency_id) => Ok(
            ChangeModel::RemoveDependency { dependency_id, updated_by: requested_actor(params) },
        ),
        None => Err(invalid_fault("task remove_dependency requires --dependency-id"@)),
    }
}

fn remove_dependency(params: &Option<Value>) -> (change: Result<Change, RpcError>)
    ensures
        change_view(change) == remove_dependency_change(owned_view(*params)),
{
    match get_string(params, "dependency_id") {
        Some(dependency_id) => Ok(
            Change::RemoveDependency { dependency_id, updated_by: actor(params) },
        ),
        None => Err(invalid("task remove_dependency requires --dependency-id")),
    }
}

/// The listing of a `list` request.
pub open spec fn requested_list(params: Option<Json>) -> ListingModel {
    ListingModel::List { limit: requested_limit(params), status: requested_status(params) }
}

/// The first step of a `get` request.
pub open spec fn get_step(params: Option<Json>) -> StepModel {
    match requested_id(params) {
        Ok(id) => StepModel::ReadTask { id, change: None },
        Err(e) => StepModel::Reply(Err(e)),
    }
}

fn get(params: &Option<Value>) -> (step: Step)
    ensures
        step@ == get_step(owned_view(*params)),
{
    match require_id(params) {
        Ok(id) => Step::ReadTask { id, change: None },
        Err(e) => Step::Reply(Err(e)),
    }
}

/// The first step of a `delete` request.
pub open spec fn delete_step(params: Option<Json>) -> StepModel {
    match requested_id(params) {
        Ok(id) => StepModel::Write(WriteModel::Delete { id }),
        Err(e) => StepModel::Reply(Err(e)),
    }
}

fn delete(params: &Option<Value>) -> (step: Step)
    ensures
        step@ == delete_step(owned_view(*params)),
{
    match require_id(params) {
        Ok(id) => Step::Write(Write::Delete { id }),
        Err(e) => Step::Reply(Err(e)),
    }
}

/// The message of an action that failed.
pub open spec fn failure(action: Seq<char>, reason: Seq<char>) -> Seq<char> {
    action + " failed: "@ + reason
}

fn failure_message(action: &str, reason: &str) -> (message: String)
    ensures
        message@ == failure(action@, reason@),
{
    let head = joined(action, " failed: ");
    joined(head.as_str(), reason)
}

/// Storing a task, which takes an id in its payload.
pub open spec fn store_step(task: Json, action: Seq<char>) -> StepModel {
    match task.text("id"@) {
        Some(id) => StepModel::Write(
            WriteModel::Upsert { task, row: row_model(task, id), action },
        ),
        None => StepModel::Reply(Err(internal_fault(failure(action, "task json missing id"@)))),
    }
}

fn store(task: Value, action: &str) -> (step: Step)
    ensures
        step@ == store_step(task@, action@),
{
    match task_row(&task) {
        Some(row) => Step::Write(Write::Upsert { task, row, action: action.to_string() }),
        None => Step::Reply(
            Err(internal(failure_message(action, "task json missing id").as_str())),
        ),
    }
}

/// The first step of a `replace` request.
pub open spec fn replace_step(params: Option<Json>) -> StepModel {
    match param(params, "task"@) {
        None => StepModel::Reply(Err(invalid_fault("task replace requires --task <json>"@))),
        Some(task) => if task.text("id"@) is None {
            StepModel::Reply(Err(invalid_fault("task replace payload missing id"@)))
        } else {
            store_step(task, "task replace"@)
        },
    }
}

fn replace(params: &Option<Value>) -> (step: Step)
    ensures
        step@ == replace_step(owned_view(*params)),
{
    match get_param(params, "task") {
        None => Step::Reply(Err(invalid("task replace requires --task <json>"))),
        Some(task) => if task.text("id").is_none() {
            Step::Reply(Err(invalid("task replace payload missing id")))
        } else {
            store(task.clone(), "task replace")
        },
    }
}

/// The strings of the parameter `key`.
pub open spec fn param_strings(params: Option<Json>, key: Seq<char>) -> Seq<Seq<char>> {
    match params {
        Some(p) => strings_at(p, key),
        None => Seq::empty(),
    }
}

fn strings_param(params: &Option<Value>, key: &str) -> (strings: Vec<String>)
    ensures
        string_views(strings@) == param_strings(owned_view(*params), key@),
{
    match params {
        Some(p) => string_array(p, key),
        None => {
            let none: Vec<String> = Vec::new();
            assert(string_views(none@) =~= Seq::<Seq<char>>::empty());
            none
        },
    }
}

/// The draft of a `create` request with the title `title`.
pub open spec fn requested_draft(params: Option<Json>, title: Seq<char>) -> DraftModel {
    DraftModel {
        title,
        description: or_else(param_text(params, "body"@), Seq::empty()),
        priority: match param_text(params, "priority"@) {
            Some(p) => Some(canonical(p)),
            None => None,
        },
        task_type: param_text(params, "task_type"@),
        tags: param_strings(params, "labels"@),
        linked_requirements: param_strings(params, "linked_requirements"@),
        linked_architecture_entities: param_strings(params, "linked_architecture_entities"@),
        created_by: param_text(params, "created_by"@),
        status: param_text(params, "status"@),
    }
}

/// The first step of a `create` request.
pub open spec fn create_step(params: Option<Json>) -> StepModel {
    match param_text(params, "title"@) {
        None => StepModel::Reply(Err(invalid_fault("task create requires --title"@))),
        Some(title) => StepModel::ReadIds(requested_draft(params, title)),
    }
}

fn create(params: &Option<Value>) -> (step: Step)
    ensures
        step@ == create_step(owned_view(*params)),
{
    match get_string(params, "title") {
        None => Step::Reply(Err(invalid("task create requires --title"))),
        Some(title) => Step::ReadIds(
            Draft {
                title,
                description: match get_string(params, "body") {
                    Some(body) => body,
                    None => String::new(),
                },
                priority: match get_text(params, "priority") {
                    Some(p) => Some(canonical_priority(p)),
                    None => None,
                },
                task_type: get_string(params, "task_type"),
                tags: strings_param(params, "labels"),
                linked_requirements: strings_param(params, "linked_requirements"),
                linked_architecture_entities: strings_param(
                    params,
                    "linked_architecture_entities",
                ),
                created_by: get_string(params, "created_by"),
                status: get_string(params, "status"),
            },
        ),
    }
}

/// The first step of a request, for a method outside the task surface none.
pub open spec fn first_step(method: Seq<char>, params: Option<Json>) -> Option<StepModel> {
    match stripped(method, "task/"@) {
        None => None,
        Some(verb) => if verb == "list"@ || verb == "list_filtered"@ {
            Some(StepModel::ReadAll(requested_list(params)))
        } else if verb == "list_prioritized"@ {
            Some(StepModel::ReadAll(ListingModel::Prioritized))
        } else if verb == "get"@ {
            Some(get_step(params))
        } else if verb == "create"@ {
            Some(create_step(params))
        } else if verb == "update"@ {
            Some(
                change_step(
                    requested_id(params),
                    Ok(ChangeModel::Patch { patch: requested_patch(params) }),
                ),
            )
        } else if verb == "replace"@ {
            Some(replace_step(params))
        } else if verb == "delete"@ {
            Some(delete_step(params))
        } else if verb == "statistics"@ {
            Some(StepModel::ReadAll(ListingModel::Statistics))
        } else if verb == "assign"@ {
            Some(change_step(requested_id(params), assign_change(params)))
        } else if verb == "status"@ {
            Some(change_step(requested_id(params), status_change(params)))
        } else if verb == "next"@ {
            Some(StepModel::ReadAll(ListingModel::Next))
        } else if verb == "add_checklist_item"@ {
            Some(change_step(requested_id(params), add_item_change(params)))
        } else if verb == "update_checklist_item"@ {
            Some(change_step(requested_id(params), update_item_change(params)))
        } else if verb == "add_dependency"@ {
            Some(change_step(requested_id(params), add_dependency_change(params)))
        } else if verb == "remove_dependency"@ {
            Some(change_step(requested_id(params), remove_dependency_change(params)))
        } else {
            None
        },
    }
}

/// The view of an optional step.
pub open spec fn step_view(step: Option<Step>) -> Option<StepModel> {
    match step {
        Some(s) => Some(s@),
        None => None,
    }
}

/// The first step of a request to the task surface, or `None` where the method is not part of
/// it and should fall through to the standard handler.
pub fn try_dispatch(method: &str, params: &Option<Value>) -> (step: Option<Step>)
    ensures
        step_view(step) == first_step(method@, owned_view(*params)),
{
    match strip_prefix(method, "task/") {
        None => None,
        Some(verb) => if same(verb, "list") || same(verb, "list_filtered") {
            Some(
                Step::ReadAll(
                    Listing::List { limit: limit_param(params), status: first_status(params) },
                ),
            )
        } else if same(verb, "list_prioritized") {
            Some(Step::ReadAll(Listing::Prioritized))
        } else if same(verb, "get") {
            Some(get(params))
        } else if same(verb, "create") {
            Some(create(params))
        } else if same(verb, "update") {
            Some(read_for_change(params, Ok(Change::Patch { patch: patch_value(params) })))
        } else if same(verb, "replace") {
            Some(replace(params))
        } else if same(verb, "delete") {
            Some(delete(params))
        } else if same(verb, "statistics") {
            Some(Step::ReadAll(Listing::Statistics))
        } else if same(verb, "assign") {
            Some(read_for_change(params, assign(params)))
        } else if same(verb, "status") {
            Some(read_for_change(params, status(params)))
        } else if same(verb, "next") {
            Some(Step::ReadAll(Listing::Next))
        } else if same(verb, "add_checklist_item") {
            Some(read_for_change(params, add_item(params)))
        } else if same(verb, "update_checklist_item") {
            Some(read_for_change(params, update_item(params)))
        } else if same(verb, "add_dependency") {
            Some(read_for_change(params, add_dependency(params)))
        } else if same(verb, "remove_dependency") {
            Some(read_for_change(params, remove_dependency(params)))
        } else {
            None
        },
    }
}

// ---------------------------------------------------------------------
// Steps after an answer of the table
// ---------------------------------------------------------------------

/// The answer to a question over all tasks.
pub open spec fn listing_answer(listing: ListingModel, tasks: Seq<Json>) -> Json {
    match listing {
        ListingModel::List { limit, status } => page(
            subjects_of(limited(of_status(tasks, status), limit)),
        ),
        ListingModel::Prioritized => page(subjects_of(prioritized(tasks))),
        ListingModel::Next => match next_task(tasks) {
            Some(task) => subject_of(task),
            None => Json::Null,
        },
        ListingModel::Statistics => statistics_of(tasks),
    }
}

/// The reply to a question over all tasks, after they were read or could not be.
pub open spec fn listing_reply(
    listing: ListingModel,
    tasks: Result<Seq<Json>, Seq<char>>,
) -> Result<Json, Fault> {
    match tasks {
        Ok(tasks) => Ok(listing_answer(listing, tasks)),
        Err(e) => Err(internal_fault(failure("task list"@, e))),
    }
}

/// The model of what a read of all tasks gave.
pub open spec fn tasks_view(tasks: Result<Vec<Value>, String>) -> Result<Seq<Json>, Seq<char>> {
    match tasks {
        Ok(tasks) => Ok(items_view(tasks@)),
        Err(e) => Err(e@),
    }
}

/// Answers a question over all tasks, after they were read or could not be.
pub fn answer_listing(listing: &Listing, tasks: &Result<Vec<Value>, String>) -> (reply: Result<
    Value,
    RpcError,
>)
    ensures
        reply_view(reply) == listing_reply(listing@, tasks_view(*tasks)),
{
    match tasks {
        Err(e) => Err(internal(failure_message("task list", e.as_str()).as_str())),
        Ok(tasks) => Ok(
            match listing {
                Listing::List { limit, status } => list(
                    tasks,
                    *limit,
                    match status {
                        Some(s) => Some(s.as_str()),
                        None => None,
                    },
                ),
                Listing::Prioritized => list_prioritized(tasks),
                Listing::Next => next(tasks),
                Listing::Statistics => statistics(tasks),
            },
        ),
    }
}

/// The task that a draft becomes under an id.
pub open spec fn drafted(draft: DraftModel, id: Seq<char>, now: Seq<char>) -> Json {
    let task = new_task(
        id,
        draft.title,
        draft.description,
        draft.priority,
        draft.task_type,
        draft.tags,
        draft.created_by,
        draft.linked_requirements,
        draft.linked_architecture_entities,
        now,
    );
    match draft.status {
        Some(status) => in_status(task, status, now),
        None => task,
    }
}

/// The step after the ids in use were read, or could not be.
pub open spec fn after_ids(
    draft: DraftModel,
    ids: Result<Seq<Seq<char>>, Seq<char>>,
    prefix: Seq<char>,
    pad: nat,
    now: Seq<char>,
) -> StepModel {
    match ids {
        Ok(ids) => store_step(drafted(draft, next_id(ids, prefix, pad), now), "task create"@),
        Err(e) => StepModel::Reply(Err(internal_fault(failure("id generation"@, e)))),
    }
}

/// The model of what a read of the ids gave.
pub open spec fn ids_view(ids: Result<Vec<String>, String>) -> Result<Seq<Seq<char>>, Seq<char>> {
    match ids {
        Ok(ids) => Ok(string_views(ids@)),
        Err(e) => Err(e@),
    }
}

/// The next id after those in use.
pub fn next_task_id(ids: &Vec<String>, prefix: &str, pad: usize) -> (id: String)
    ensures
        id@ == next_id(string_views(ids@), prefix@, pad as nat),
{
    let mut slices: Vec<&str> = Vec::new();
    for i in 0..ids.len()
        invariant
            slices.len() == i,
            forall|j: int| 0 <= j < i ==> (#[trigger] slices[j])@ == ids[j]@,
    {
        slices.push(ids[i].as_str());
    }
    assert(texts(slices@) =~= string_views(ids@));
    next_sequential_id(slices.as_slice(), prefix, pad)
}

fn unidentified(reason: &str) -> (error: RpcError)
    ensures
        error@ == internal_fault(failure("id generation"@, reason@)),
{
    internal(failure_message("id generation", reason).as_str())
}

/// Creates a task at a given time, after the ids in use were read, or could not be.
pub fn create_task_at(
    draft: Draft,
    ids: &Result<Vec<String>, String>,
    prefix: &str,
    pad: usize,
    now: &str,
) -> (step: Step)
    ensures
        step@ == after_ids(draft@, ids_view(*ids), prefix@, pad as nat, now@),
{
    match ids {
        Err(e) => Step::Reply(Err(unidentified(e.as_str()))),
        Ok(ids) => {
            let id = next_task_id(ids, prefix, pad);
            let mut task = build_new_task(
                id,
                draft.title,
                draft.description,
                draft.priority,
                draft.task_type,
                draft.tags,
                draft.created_by,
                draft.linked_requirements,
                draft.linked_architecture_entities,
                now,
            );
            if let Some(status) = draft.status {
                set_status_field(&mut task, status.as_str(), now);
            }
            store(task, "task create")
        },
    }
}

/// Creates a task now, after the ids in use were read, or could not be.
pub fn create_task(
    draft: Draft,
    ids: &Result<Vec<String>, String>,
    prefix: &str,
    pad: usize,
) -> (step: Step)
    ensures
        exists|now: Seq<char>|
            is_utc_time(now) && step@ == #[trigger] after_ids(
                draft@,
                ids_view(*ids),
                prefix@,
                pad as nat,
                now,
            ),
{
    match ids {
        Err(e) => {
            let step = Step::Reply(Err(unidentified(e.as_str())));
            proof {
                let now = lemma_some_utc_time();
                assert(step@ == after_ids(draft@, ids_view(*ids), prefix@, pad as nat, now));
            }
            step
        },
        Ok(_) => {
            let now = now_rfc3339();
            create_task_at(draft, ids, prefix, pad, now.as_str())
        },
    }
}

/// What a change is called where storing it fails.
pub open spec fn action_of(change: ChangeModel) -> Seq<char> {
    match change {
        ChangeModel::Patch { .. } => "task update"@,
        ChangeModel::Assign { .. } => "task assign"@,
        ChangeModel::Status { .. } => "task set_status"@,
        ChangeModel::AddChecklistItem { .. } => "task add_checklist_item"@,
        ChangeModel::UpdateChecklistItem { .. } => "task update_checklist_item"@,
        ChangeModel::AddDependency { .. } => "task add_dependency"@,
        ChangeModel::RemoveDependency { .. } => "task remove_dependency"@,
    }
}

fn action_name(change: &Change) -> (action: &'static str)
    ensures
        action@ == action_of(change@),
{
    match change {
        Change::Patch { .. } => "task update",
        Change::Assign { .. } => "task assign",
        Change::Status { .. } => "task set_status",
        Change::AddChecklistItem { .. } => "task add_checklist_item",
        Change::UpdateChecklistItem { .. } => "task update_checklist_item",
        Change::AddDependency { .. } => "task add_dependency",
        Change::RemoveDependency { .. } => "task remove_dependency",
    }
}

/// The step after a task was read, or could not be.
pub open spec fn after_task(
    id: Seq<char>,
    change: Option<ChangeModel>,
    found: Result<Json, Seq<char>>,
    patched_at: Seq<char>,
    now: Seq<char>,
) -> StepModel {
    match found {
        Err(e) => StepModel::Reply(
            Err(not_found_fault("task "@ + id + " not found: "@ + e)),
        ),
        Ok(task) => match change {
            None => StepModel::Reply(Ok(subject_of(task))),
            Some(change) => match changed(task, change, patched_at, now) {
                Err(e) => StepModel::Reply(Err(e)),
                Ok(task) => store_step(task, action_of(change)),
            },
        },
    }
}

/// The model of what a read of one task gave.
pub open spec fn found_view(found: Result<Value, String>) -> Result<Json, Seq<char>> {
    match found {
        Ok(task) => Ok(task@),
        Err(e) => Err(e@),
    }
}

/// The model of an optional change.
pub open spec fn optional_change(change: Option<Change>) -> Option<ChangeModel> {
    match change {
        Some(c) => Some(c@),
        None => None,
    }
}

fn missing(id: &str, reason: &str) -> (error: RpcError)
    ensures
        error@ == not_found_fault("task "@ + id@ + " not found: "@ + reason@),
{
    let message = joined("task ", id);
    let message = joined(message.as_str(), " not found: ");
    not_found(joined(message.as_str(), reason).as_str())
}

/// Goes on at given times, after a task was read, or could not be.
pub fn resume_task_at(
    id: &str,
    change: &Option<Change>,
    found: Result<Value, String>,
    patched_at: &str,
    now: &str,
) -> (step: Step)
    ensures
        step@ == after_task(id@, optional_change(*change), found_view(found), patched_at@, now@),
{
    match found {
        Err(e) => Step::Reply(Err(missing(id, e.as_str()))),
        Ok(task) => match change {
            None => Step::Reply(Ok(subject_view(&task))),
            Some(change) => match change_task_at(task, change, patched_at, now) {
                Err(e) => Step::Reply(Err(e)),
                Ok(task) => store(task, action_name(change)),
            },
        },
    }
}

/// Goes on now, after a task was read, or could not be. The clock is read for a change only.
pub fn resume_task(id: &str, change: &Option<Change>, found: Result<Value, String>) -> (step: Step)
    ensures
        exists|patched_at: Seq<char>, now: Seq<char>|
            is_utc_time(patched_at) && is_utc_time(now) && step@ == #[trigger] after_task(
                id@,
                optional_change(*change),
                found_view(found),
                patched_at,
                now,
            ),
{
    let ghost model = found_view(found);
    let ghost asked = optional_change(*change);
    let ghost mut patched_at: Seq<char> = lemma_some_utc_time();
    let ghost mut now: Seq<char> = patched_at;
    let step = match found {
        Err(e) => Step::Reply(Err(missing(id, e.as_str()))),
        Ok(task) => match change {
            None => Step::Reply(Ok(subject_view(&task))),
            Some(change) => {
                let ghost before = task@;
                let outcome = change_task(task, change);
                proof {
                    let times = choose|p: Seq<char>, n: Seq<char>|
                        is_utc_time(p) && is_utc_time(n) && reply_view(outcome)
                            == #[trigger] changed(before, change@, p, n);
                    patched_at = times.0;
                    now = times.1;
                }
                match outcome {
                    Err(e) => Step::Reply(Err(e)),
                    Ok(task) => store(task, action_name(change)),
                }
            },
        },
    };
    assert(step@ == after_task(id@, asked, model, patched_at, now));
    step
}

/// The reply after a write was made, or failed. A write says whether a row was there to be
/// deleted.
pub open spec fn after_write(
    write: WriteModel,
    stored: Result<bool, Seq<char>>,
) -> Result<Json, Fault> {
    match write {
        WriteModel::Upsert { task, row, action } => match stored {
            Ok(_) => Ok(subject_of(task)),
            Err(e) => Err(internal_fault(failure(action, e))),
        },
        WriteModel::Delete { id } => match stored {
            Ok(removed) => Ok(
                Json::Object(
                    map![
                        "id"@ => Json::String(wire_id(id)),
                        "deleted"@ => Json::Bool(removed),
                    ],
                ),
            ),
            Err(e) => Err(internal_fault(failure("task delete"@, e))),
        },
    }
}

/// The model of what a write gave.
pub open spec fn stored_view(stored: Result<bool, String>) -> Result<bool, Seq<char>> {
    match stored {
        Ok(removed) => Ok(removed),
        Err(e) => Err(e@),
    }
}

/// The reply after a write was made, or failed.
pub fn settle(write: &Write, stored: &Result<bool, String>) -> (reply: Result<Value, RpcError>)
    ensures
        reply_view(reply) == after_write(write@, stored_view(*stored)),
{
    match write {
        Write::Upsert { task, row: _, action } => match stored {
            Ok(_) => Ok(subject_view(task)),
            Err(e) => Err(internal(failure_message(action.as_str(), e.as_str()).as_str())),
        },
        Write::Delete { id } => match stored {
            Ok(removed) => {
                let mut object = Object::new();
                object.insert("id", Value::String(add_kind_prefix(id.as_str())));
                object.insert("deleted", Value::Bool(*removed));
                Ok(Value::Object(object))
            },
            Err(e) => Err(internal(failure_message("task delete", e.as_str()).as_str())),
        },
    }
}

} // verus!
