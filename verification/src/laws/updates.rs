//! What the subject verbs do, told from the members of the patch and of the task.
use crate::backend::{
    declared_fields, deletion_event, deletion_reply, names_at, patch_document, subject_patched,
    update_outcome, BackendFault, ChangeKind, CustomFieldKind, PatchModel, SubjectStatus,
};
use crate::laws::labels::{
    array_of, lemma_new_labels, new_labels, strings_are_read_in_order, strings_are_written_in_order,
    strings_of_a_member_are_read, words, words_of,
};
use crate::laws::names::lemma_names;
use crate::laws::patches::{
    patched_objects_are_objects, patches_keep_the_id, patches_touch_what_they_name,
};
use crate::laws::subjects::{lemma_document, subject_patch_honours_the_rest};
use crate::laws::verbs::is_stamped;
use crate::laws::views::subjects_are_in_one_of_five_statuses;
use crate::methods::kind::bare_id;
use crate::methods::patch::{patched, relabelled};
use crate::methods::view::subject_of;
use crate::store::crud::{row_model, stamped, RowModel};
use crate::value::Json;
use vstd::prelude::*;

verus! {

/// A status that a patch gives is the one that the subject is shown in afterwards, unless the
/// custom block says another; the task says it by its own name, which is `completed` for one that
/// is done.
pub proof fn updates_set_the_status(
    task: Json,
    patch: PatchModel,
    patched_at: Seq<char>,
    now: Seq<char>,
)
    requires
        task is Object,
        !patch.custom.contains_key("status"@),
    ensures
        ({
            let after = subject_patched(task, patch, patched_at, now);
            &&& patch.status == Some(SubjectStatus::Ready) ==> after.field("status"@) == Some(
                Json::String("ready"@),
            ) && subject_of(after).field("status"@) == Some(Json::String("ready"@))
            &&& patch.status == Some(SubjectStatus::InProgress) ==> after.field("status"@) == Some(
                Json::String("in-progress"@),
            ) && subject_of(after).field("status"@) == Some(Json::String("in-progress"@))
            &&& patch.status == Some(SubjectStatus::Blocked) ==> after.field("status"@) == Some(
                Json::String("blocked"@),
            ) && subject_of(after).field("status"@) == Some(Json::String("blocked"@))
            &&& patch.status == Some(SubjectStatus::Done) ==> after.field("status"@) == Some(
                Json::String("completed"@),
            ) && subject_of(after).field("status"@) == Some(Json::String("done"@))
            &&& patch.status == Some(SubjectStatus::Cancelled) ==> after.field("status"@) == Some(
                Json::String("cancelled"@),
            ) && subject_of(after).field("status"@) == Some(Json::String("cancelled"@))
        }),
{
    lemma_names();
    let after = subject_patched(task, patch, patched_at, now);
    subject_patch_honours_the_rest(task, patch, patched_at, now);
    subjects_are_in_one_of_five_statuses(after);
}

/// An update that adds or removes labels leaves those that it does not remove, in their order, and
/// then those that it adds and that are not there yet; only a custom block that names the tags
/// says otherwise.
pub proof fn updates_remove_and_add_labels(
    task: Json,
    patch: PatchModel,
    patched_at: Seq<char>,
    now: Seq<char>,
)
    requires
        task is Object,
        !patch.custom.contains_key("tags"@),
        patch.labels_add.len() > 0 || patch.labels_remove.len() > 0,
    ensures
        ({
            let remove = patch.labels_remove;
            let kept = words(task.field("tags"@)).filter(|l: Seq<char>| !remove.contains(l));
            subject_patched(task, patch, patched_at, now).field("tags"@) == Some(
                array_of(kept + new_labels(kept, patch.labels_add)),
            )
        }),
{
    let before = words(task.field("tags"@));
    let remove = patch.labels_remove;
    let kept = before.filter(|l: Seq<char>| !remove.contains(l));
    subject_patch_honours_the_rest(task, patch, patched_at, now);
    strings_of_a_member_are_read(task, "tags"@);
    lemma_new_labels(kept, patch.labels_add);
    strings_are_written_in_order(relabelled(before, remove, patch.labels_add));
}

/// A subject whose task cannot be read is not found. One whose task has an id is updated: the
/// patched task, dated and signed, is stored in the row of that id. A task without an id is not
/// stored.
pub proof fn updates_store_the_patched_task(
    id: Seq<char>,
    task: Json,
    patch: PatchModel,
    reason: Seq<char>,
    patched_at: Seq<char>,
    now: Seq<char>,
)
    requires
        !patch.custom.contains_key("id"@),
        !patch.custom.contains_key("metadata"@),
    ensures
        update_outcome(id, Err(reason), patch, patched_at, now) == Err::<
            (Json, RowModel),
            BackendFault,
        >(BackendFault::NotFound(id)),
        task.field("id"@) matches Some(Json::String(own)) ==> {
            let outcome = update_outcome(id, Ok(task), patch, patched_at, now);
            let after = (outcome->Ok_0).0;
            &&& outcome is Ok
            &&& after == subject_patched(task, patch, patched_at, now)
            &&& after.field("id"@) == Some(Json::String(own))
            &&& (outcome->Ok_0).1 == row_model(after, own)
            &&& patch.status is None ==> is_stamped(task, after, now, "animus.subject.default"@)
        },
        !(task.field("id"@) matches Some(Json::String(_))) ==> update_outcome(
            id,
            Ok(task),
            patch,
            patched_at,
            now,
        ) == Err::<(Json, RowModel), BackendFault>(
            BackendFault::Other("task json missing id"@),
        ),
{
    lemma_kept(task, patch, patched_at);
    lemma_stamped(patched(task, patch_document(patch), patched_at), now);
}

/// What a patch leaves alone.
proof fn lemma_kept(task: Json, patch: PatchModel, now: Seq<char>)
    requires
        !patch.custom.contains_key("id"@),
        !patch.custom.contains_key("metadata"@),
    ensures
        patched(task, patch_document(patch), now).field("id"@) == task.field("id"@),
        patch.status is None ==> patched(task, patch_document(patch), now).field("metadata"@)
            == task.field("metadata"@),
        task is Object ==> patched(task, patch_document(patch), now) is Object,
{
    let document = patch_document(patch);
    lemma_names();
    lemma_document(patch);
    patches_keep_the_id(task, document, now);
    if patch.status is None {
        patches_touch_what_they_name(task, document, now, "metadata"@);
    }
    if task is Object {
        patched_objects_are_objects(task, document, now);
    }
}

/// What a stamp says and keeps.
proof fn lemma_stamped(task: Json, now: Seq<char>)
    ensures
        ({
            let after = stamped(task, now, "animus.subject.default"@);
            &&& after.field("id"@) == task.field("id"@)
            &&& task is Object ==> is_stamped(task, after, now, "animus.subject.default"@)
        }),
{
    lemma_names();
}

/// A deletion is confirmed where a row was deleted, and refused where there was none or where the
/// table could not delete it; only a row that was deleted is announced, with what was known of it.
pub proof fn deletions_are_confirmed_and_announced(
    id: Seq<char>,
    found: Result<Json, Seq<char>>,
    reason: Seq<char>,
)
    ensures
        deletion_reply(id, Ok(true)) == Ok::<Json, BackendFault>(
            Json::Object(map!["ok"@ => Json::Bool(true)]),
        ),
        deletion_reply(id, Ok(false)) == Err::<Json, BackendFault>(BackendFault::NotFound(id)),
        deletion_reply(id, Err(reason)) == Err::<Json, BackendFault>(BackendFault::Other(reason)),
        deletion_event(id, found, Ok(false)) is None,
        deletion_event(id, found, Err(reason)) is None,
        deletion_event(id, found, Ok(true)) matches Some((kind, subject)) && kind
            == ChangeKind::Deleted && match found {
            Ok(task) => subject == subject_of(task),
            Err(_) => subject.field("id"@) == Some(
                Json::String(
                    if "task:"@.is_prefix_of(bare_id(id)) {
                        bare_id(id)
                    } else {
                        "task:"@ + bare_id(id)
                    },
                ),
            ),
        },
{
    lemma_names();
}

/// The names that a member of a filter document gives: that of a string, those of an array in
/// their order, and none otherwise.
pub proof fn filters_name_one_or_more(document: Json, key: Seq<char>)
    ensures
        names_at(document, key) == (match document.field(key) {
            Some(Json::String(name)) => seq![name],
            Some(Json::Array(items)) => words_of(items),
            _ => Seq::<Seq<char>>::empty(),
        }),
{
    if let Some(Json::Array(items)) = document.field(key) {
        strings_are_read_in_order(items);
    }
}

/// The kinds of the custom fields: risk is low, medium or high, scope is small, medium or large,
/// there are two flags and two dates, and the rest are strings.
pub proof fn custom_fields_have_their_kinds(i: int)
    requires
        0 <= i < declared_fields().len(),
    ensures
        declared_fields().len() == 14,
        ({
            let field = declared_fields()[i];
            &&& field.key == "risk"@ ==> field.kind == CustomFieldKind::Enum && field.values == Some(
                seq!["low"@, "medium"@, "high"@],
            )
            &&& field.key == "scope"@ ==> field.kind == CustomFieldKind::Enum && field.values
                == Some(seq!["small"@, "medium"@, "large"@])
            &&& field.key == "paused"@ || field.key == "cancelled"@ ==> field.kind
                == CustomFieldKind::Bool && field.values is None
            &&& field.key == "deadline"@ || field.key == "blocked_at"@ ==> field.kind
                == CustomFieldKind::Date && field.values is None
            &&& field.key != "risk"@ && field.key != "scope"@ && field.key != "paused"@ && field.key
                != "cancelled"@ && field.key != "deadline"@ && field.key != "blocked_at"@
                ==> field.kind == CustomFieldKind::String && field.values is None
        }),
{
    lemma_names();
}

} // verus!
