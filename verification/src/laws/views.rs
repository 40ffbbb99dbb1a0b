//! How tasks are shown and stored, told from the members of the task.
use crate::laws::answers::{own_priority, own_status};
use crate::laws::names::lemma_names;
use crate::methods::kind::{bare_id, wire_id};
use crate::methods::view::{normalized, subject_of};
use crate::store::crud::row_model;
use crate::value::{Json, JsonNumber};
use vstd::prelude::*;
use vstd::string::*;

verus! {

/// A member that is shown as it is, or what stands for it where there is none.
pub open spec fn shown(member: Option<Json>, otherwise: Json) -> Json {
    match member {
        Some(value) => value,
        None => otherwise,
    }
}

/// A member that is shown where it is a string, or the text that stands for it otherwise.
pub open spec fn shown_text(member: Option<Json>, otherwise: Seq<char>) -> Json {
    match member {
        Some(Json::String(text)) => Json::String(text),
        _ => Json::String(otherwise),
    }
}

/// A member that is shown where it is a boolean, and false otherwise.
pub open spec fn shown_flag(member: Option<Json>) -> Json {
    match member {
        Some(Json::Bool(flag)) => Json::Bool(flag),
        _ => Json::Bool(false),
    }
}

/// The text of a member, where it is a string.
pub open spec fn said(member: Option<Json>) -> Option<Seq<char>> {
    match member {
        Some(Json::String(text)) => Some(text),
        _ => None,
    }
}

/// A subject shows the task under the id with `task:` in front. Title, description, tags and the
/// two times of the bookkeeping are those of the task. The priority is a number: 4 where it is
/// critical, 3 where high, 1 where low, and 2 for every other one.
pub proof fn subjects_show_the_members_of_the_task(task: Json)
    ensures
        subject_of(task).field("kind"@) == Some(Json::String("task"@)),
        task.field("id"@) matches Some(Json::String(id)) ==> (!"task:"@.is_prefix_of(id)
            ==> subject_of(task).field("id"@) == Some(Json::String("task:"@ + id))),
        task.field("id"@) matches Some(Json::String(id)) ==> ("task:"@.is_prefix_of(id)
            ==> subject_of(task).field("id"@) == task.field("id"@)),
        subject_of(task).field("title"@) == Some(
            shown(task.field("title"@), Json::String(Seq::empty())),
        ),
        subject_of(task).field("description"@) == Some(
            shown(task.field("description"@), Json::String(Seq::empty())),
        ),
        subject_of(task).field("native_status"@) == Some(Json::String(own_status(task))),
        subject_of(task).field("labels"@) == Some(
            shown(task.field("tags"@), Json::Array(Seq::empty())),
        ),
        subject_of(task).field("created_at"@) == Some(
            shown(task.nested("metadata"@, "created_at"@), Json::Null),
        ),
        subject_of(task).field("updated_at"@) == Some(
            shown(task.nested("metadata"@, "updated_at"@), Json::Null),
        ),
        own_priority(task) == "critical"@ ==> subject_of(task).field("priority"@) == Some(
            Json::Number(JsonNumber::PosInt(4)),
        ),
        own_priority(task) == "high"@ ==> subject_of(task).field("priority"@) == Some(
            Json::Number(JsonNumber::PosInt(3)),
        ),
        own_priority(task) == "low"@ ==> subject_of(task).field("priority"@) == Some(
            Json::Number(JsonNumber::PosInt(1)),
        ),
        own_priority(task) != "critical"@ && own_priority(task) != "high"@ && own_priority(task)
            != "low"@ ==> subject_of(task).field("priority"@) == Some(
            Json::Number(JsonNumber::PosInt(2)),
        ),
{
    lemma_names();
    reveal_strlit("");
    assert(""@ =~= Seq::<char>::empty());
    reveal_strlit("critical");
    reveal_strlit("high");
    reveal_strlit("medium");
    reveal_strlit("low");
    assert("low"@.len() == 3 && "high"@.len() == 4 && "medium"@.len() == 6 && "critical"@.len()
        == 8);
}

/// The custom block of a subject shows the rest of the task: type, risk and scope, the flags, the
/// deadline and the assignee, the checklist and the dependencies, what blocks it, the links, and
/// the status as the task says it.
pub proof fn custom_blocks_show_the_rest_of_the_task(task: Json)
    ensures
        subject_of(task).nested("custom"@, "type"@) == Some(
            shown_text(task.field("task_type"@), "feature"@),
        ),
        subject_of(task).nested("custom"@, "risk"@) == Some(
            shown_text(task.field("risk"@), "medium"@),
        ),
        subject_of(task).nested("custom"@, "scope"@) == Some(
            shown_text(task.field("scope"@), "medium"@),
        ),
        subject_of(task).nested("custom"@, "paused"@) == Some(shown_flag(task.field("paused"@))),
        subject_of(task).nested("custom"@, "cancelled"@) == Some(
            shown_flag(task.field("cancelled"@)),
        ),
        subject_of(task).nested("custom"@, "deadline"@) == Some(
            shown(task.field("deadline"@), Json::Null),
        ),
        subject_of(task).nested("custom"@, "assignee"@) == Some(
            shown(task.field("assignee"@), Json::Null),
        ),
        subject_of(task).nested("custom"@, "checklist"@) == Some(
            shown(task.field("checklist"@), Json::Array(Seq::empty())),
        ),
        subject_of(task).nested("custom"@, "dependencies"@) == Some(
            shown(task.field("dependencies"@), Json::Array(Seq::empty())),
        ),
        subject_of(task).nested("custom"@, "blocked_at"@) == Some(
            shown(task.field("blocked_at"@), Json::Null),
        ),
        subject_of(task).nested("custom"@, "blocked_reason"@) == Some(
            shown(task.field("blocked_reason"@), Json::Null),
        ),
        subject_of(task).nested("custom"@, "blocked_by"@) == Some(
            shown(task.field("blocked_by"@), Json::Null),
        ),
        subject_of(task).nested("custom"@, "linked_requirements"@) == Some(
            shown(task.field("linked_requirements"@), Json::Array(Seq::empty())),
        ),
        subject_of(task).nested("custom"@, "linked_architecture_entities"@) == Some(
            shown(task.field("linked_architecture_entities"@), Json::Array(Seq::empty())),
        ),
        subject_of(task).nested("custom"@, "raw_status"@) == Some(Json::String(own_status(task))),
{
    lemma_names();
}

/// The status of a subject is one of five: in progress, blocked and cancelled tasks are shown as
/// such, done and completed ones as done, and all others as ready.
pub proof fn subjects_are_in_one_of_five_statuses(task: Json)
    ensures
        own_status(task) == "in-progress"@ || own_status(task) == "in_progress"@
            ==> subject_of(task).field("status"@) == Some(Json::String("in-progress"@)),
        own_status(task) == "blocked"@ ==> subject_of(task).field("status"@) == Some(
            Json::String("blocked"@),
        ),
        own_status(task) == "done"@ || own_status(task) == "completed"@ ==> subject_of(task).field(
            "status"@,
        ) == Some(Json::String("done"@)),
        own_status(task) == "cancelled"@ ==> subject_of(task).field("status"@) == Some(
            Json::String("cancelled"@),
        ),
        own_status(task) != "in-progress"@ && own_status(task) != "in_progress"@ && own_status(task)
            != "blocked"@ && own_status(task) != "done"@ && own_status(task) != "completed"@
            && own_status(task) != "cancelled"@ ==> subject_of(task).field("status"@) == Some(
            Json::String("ready"@),
        ),
        subject_of(task).field("status"@) == Some(Json::String(normalized(own_status(task)))),
{
    lemma_names();
}

/// The columns of a row repeat the members of the task, as far as these are strings; the status is
/// `backlog` where the task says none.
pub proof fn rows_repeat_the_members_of_the_task(task: Json, id: Seq<char>)
    ensures
        row_model(task, id).id == id,
        row_model(task, id).status == own_status(task),
        row_model(task, id).title == said(task.field("title"@)),
        row_model(task, id).priority == said(task.field("priority"@)),
        row_model(task, id).task_type == said(task.field("task_type"@)),
        row_model(task, id).updated_at == said(task.nested("metadata"@, "updated_at"@)),
        row_model(task, id).completed_at == said(task.nested("metadata"@, "completed_at"@)),
        row_model(task, id).blocked_reason == said(task.field("blocked_reason"@)),
        row_model(task, id).blocked_at == said(task.field("blocked_at"@)),
{
}

/// An id with `task:` in front and the id without stand for the same task: the one form is the
/// other with `task:` put in front or taken off.
pub proof fn wire_ids_and_bare_ids_differ_by_the_kind(id: Seq<char>)
    ensures
        bare_id("task:"@ + id) == id,
        !"task:"@.is_prefix_of(id) ==> bare_id(id) == id,
        !"task:"@.is_prefix_of(id) ==> wire_id(id) == "task:"@ + id,
        wire_id("task:"@ + id) == "task:"@ + id,
{
    let wire = "task:"@ + id;
    assert(wire.subrange(0, "task:"@.len() as int) =~= "task:"@);
    assert(wire.skip("task:"@.len() as int) =~= id);
}

} // verus!
