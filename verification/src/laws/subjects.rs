//! Subjects: how tasks are shown, selected and patched from outside.
use crate::backend::{
    admits, admitted, declared_fields, facts_of, patch_document, selected, subject_patched,
    written_status, FactsModel, PatchModel, SubjectFilter,
};
use crate::laws::names::lemma_names;
use crate::laws::patches::{
    is_flat_field, lemma_custom_frame, lemma_flat_frame, lemma_labels_frame, lemma_status_frame,
};
use crate::laws::statuses::{normalizing_is_stable, status_name, status_side_effects};
use crate::methods::kind::bare_id;
use crate::methods::patch::{
    custom_patched, field_patched, flat_patched, is_task_field, labels_patched, patched,
    priority_patched, relabelled, status_patched, strings_at, text_patched, with_custom_fields,
};
use crate::methods::view::{native_status, normalized, subject_of};
use crate::store::crud::stamped;
use crate::value::{json_strings, or_else, string_views, strings_among, Json};
use vstd::prelude::*;

verus! {

/// Every subject is of the kind `task` and goes by a wire id. Its status is normalized, and the
/// native status stays readable in two places.
pub proof fn subjects_keep_the_native_status(task: Json)
    ensures
        subject_of(task).text("kind"@) == Some("task"@),
        subject_of(task).text("id"@) matches Some(id) && "task:"@.is_prefix_of(id),
        task.text("id"@) matches Some(id) ==> (!"task:"@.is_prefix_of(id) ==> bare_id(
            subject_of(task).text("id"@)->0,
        ) == id),
        subject_of(task).text("native_status"@) == Some(native_status(task)),
        subject_of(task).nested("custom"@, "raw_status"@) == Some(
            Json::String(native_status(task)),
        ),
        subject_of(task).text("status"@) == Some(normalized(native_status(task))),
{
    lemma_names();
    let id = or_else(task.text("id"@), ""@);
    let wire = "task:"@ + id;
    assert(wire.subrange(0, "task:"@.len() as int) == "task:"@);
    assert(wire.skip("task:"@.len() as int) == id);
}

/// Every custom field that the schema declares is shown, whatever the task has.
pub proof fn declared_fields_are_shown(task: Json, i: int)
    requires
        0 <= i < declared_fields().len(),
    ensures
        subject_of(task).nested("custom"@, declared_fields()[i].key) is Some,
{
    lemma_names();
}

/// A filter that asks for nothing admits every subject.
pub proof fn empty_filter_admits_everything(filter: SubjectFilter, subject: FactsModel)
    requires
        filter.status@.len() == 0,
        filter.kind@.len() == 0,
        filter.labels_any@.len() == 0,
        filter.labels_all@.len() == 0,
        filter.native_status@.len() == 0,
        filter.dispatch_label@.len() == 0,
        filter.has_attachment_kind@.len() == 0,
    ensures
        admits(filter, subject),
{
}

proof fn lemma_admitted(subjects: Seq<FactsModel>, filter: SubjectFilter)
    ensures
        forall|k: int|
            0 <= k < admitted(subjects, filter).len() ==> {
                let place = #[trigger] admitted(subjects, filter)[k];
                0 <= place < subjects.len() && admits(filter, subjects[place])
            },
        forall|k: int, l: int|
            0 <= k < l < admitted(subjects, filter).len() ==> #[trigger] admitted(
                subjects,
                filter,
            )[k] < #[trigger] admitted(subjects, filter)[l],
        forall|place: int|
            0 <= place < subjects.len() && admits(filter, #[trigger] subjects[place]) ==> admitted(
                subjects,
                filter,
            ).contains(place),
    decreases subjects.len(),
{
    if subjects.len() > 0 {
        let rest = subjects.drop_last();
        lemma_admitted(rest, filter);
        let before = admitted(rest, filter);
        let all = admitted(subjects, filter);
        assert forall|place: int|
            0 <= place < subjects.len() && admits(
                filter,
                #[trigger] subjects[place],
            ) implies all.contains(place) by {
            if place < rest.len() {
                assert(rest[place] == subjects[place]);
                let k = choose|k: int| 0 <= k < before.len() && before[k] == place;
                assert(all[k] == place);
            } else {
                assert(all[all.len() - 1] == place);
            }
        }
    }
}

/// A listing shows subjects that have what the filter asks for, each once and in their order, and
/// no more than the limit; without a limit that binds it shows all of them.
pub proof fn selection_is_complete(subjects: Seq<FactsModel>, filter: SubjectFilter)
    ensures
        forall|k: int|
            0 <= k < selected(subjects, filter).len() ==> {
                let place = #[trigger] selected(subjects, filter)[k];
                0 <= place < subjects.len() && admits(filter, subjects[place])
            },
        forall|k: int, l: int|
            0 <= k < l < selected(subjects, filter).len() ==> #[trigger] selected(
                subjects,
                filter,
            )[k] < #[trigger] selected(subjects, filter)[l],
        selected(subjects, filter).len() <= or_else(filter.limit, u32::MAX),
        selected(subjects, filter).len() < or_else(filter.limit, u32::MAX) ==> forall|place: int|
            0 <= place < subjects.len() && admits(filter, #[trigger] subjects[place]) ==> selected(
                subjects,
                filter,
            ).contains(place),
{
    lemma_admitted(subjects, filter);
}

/// A listing that asks for native statuses shows tasks in those statuses only; one that asks for a
/// dispatch label or for attachments, which tasks do not have, shows none.
pub proof fn listings_honour_the_native_status(tasks: Seq<Json>, filter: SubjectFilter, k: int)
    requires
        0 <= k < selected(tasks.map_values(|t: Json| facts_of(t)), filter).len(),
    ensures
        ({
            let place = selected(tasks.map_values(|t: Json| facts_of(t)), filter)[k];
            &&& 0 <= place < tasks.len()
            &&& filter.native_status@.len() > 0 ==> string_views(filter.native_status@).contains(
                native_status(tasks[place]),
            )
        }),
        filter.dispatch_label@.len() == 0,
        filter.has_attachment_kind@.len() == 0,
{
    let subjects = tasks.map_values(|t: Json| facts_of(t));
    selection_is_complete(subjects, filter);
    let place = selected(subjects, filter)[k];
    assert(admits(filter, subjects[place]));
}

/// The status that a filter goes by is the one that is shown.
pub proof fn filtered_status_is_shown(task: Json)
    ensures
        subject_of(task).text("status"@) == Some(status_name(facts_of(task).status)),
        subject_of(task).text("native_status"@) == Some(facts_of(task).native_status),
        subject_of(task).text("kind"@) == Some(facts_of(task).kind),
{
    lemma_names();
    subjects_keep_the_native_status(task);
    normalizing_is_stable(native_status(task));
}

/// Which members the task patch of a subject patch has.
pub proof fn lemma_document(patch: PatchModel)
    ensures
        patch_document(patch) is Object,
        patch_document(patch).text("status"@) == (match patch.status {
            Some(status) => Some(written_status(status)),
            None => None,
        }),
        patch_document(patch).field("assignee"@) == patch.assignee,
        patch_document(patch).items("labels"@) is None,
        patch_document(patch).field("priority"@) is None,
        patch_document(patch).field("title"@) is None,
        patch_document(patch).field("body"@) is None,
        patch_document(patch).field("description"@) is None,
        strings_at(patch_document(patch), "labels_add"@) == patch.labels_add,
        strings_at(patch_document(patch), "labels_remove"@) == patch.labels_remove,
        patch_document(patch).field("custom"@) == (if patch.custom == Map::<
            Seq<char>,
            Json,
        >::empty() {
            None
        } else {
            Some(Json::Object(patch.custom))
        }),
        forall|key: Seq<char>| is_flat_field(key) ==> #[trigger] patch_document(patch).field(key) is None,
{
    lemma_names();
    lemma_strings(patch.labels_add);
    lemma_strings(patch.labels_remove);
    if patch.labels_add.len() == 0 {
        assert(patch.labels_add =~= Seq::empty());
    }
    if patch.labels_remove.len() == 0 {
        assert(patch.labels_remove =~= Seq::empty());
    }
}

/// The strings of an array of strings.
proof fn lemma_strings(strings: Seq<Seq<char>>)
    ensures
        json_strings(strings) matches Json::Array(items) && strings_among(items) == strings,
    decreases strings.len(),
{
    let items = json_strings(strings)->Array_0;
    if strings.len() > 0 {
        lemma_strings(strings.drop_last());
        assert(items.drop_last() =~= json_strings(strings.drop_last())->Array_0);
        assert(items.last() == Json::String(strings.last()));
        assert(strings == strings.drop_last().push(strings.last()));
    } else {
        assert(strings =~= Seq::empty());
    }
}

/// A patch that gives nothing leaves all but the stamp; a comment is nothing to a task.
pub proof fn empty_subject_patch_only_stamps(
    task: Json,
    patch: PatchModel,
    patched_at: Seq<char>,
    now: Seq<char>,
)
    requires
        patch.status is None,
        patch.assignee is None,
        patch.labels_add.len() == 0,
        patch.labels_remove.len() == 0,
        patch.custom == Map::<Seq<char>, Json>::empty(),
    ensures
        subject_patched(task, patch, patched_at, now) == stamped(
            task,
            now,
            "animus.subject.default"@,
        ),
{
    lemma_names();
    lemma_document(patch);
}

proof fn lemma_stamp_frame(task: Json, now: Seq<char>, by: Seq<char>, key: Seq<char>)
    requires
        key != "metadata"@,
    ensures
        stamped(task, now, by).field(key) == task.field(key),
{
}

/// Each custom field that a patch gives is honoured: set as it is, or, where it is null and not
/// one of the task's own fields, taken out.
pub proof fn subject_patch_honours_custom_fields(
    task: Json,
    patch: PatchModel,
    patched_at: Seq<char>,
    now: Seq<char>,
    key: Seq<char>,
)
    requires
        task is Object,
        patch.custom.contains_key(key),
        key != "metadata"@,
    ensures
        subject_patched(task, patch, patched_at, now).field(key) == (if is_task_field(key)
            || patch.custom[key] != Json::Null {
            Some(patch.custom[key])
        } else {
            None
        }),
{
    let document = patch_document(patch);
    lemma_document(patch);
    lemma_stamp_frame(
        patched(task, document, patched_at),
        now,
        "animus.subject.default"@,
        key,
    );
    lemma_before_custom(task, document, patched_at);
    let before = before_custom(task, document, patched_at);
    assert(custom_patched(before, document) == with_custom_fields(before, patch.custom));
    lemma_flat_frame(custom_patched(before, document), document, key);
}

/// The task with everything of a patch that comes before its custom block.
pub open spec fn before_custom(task: Json, patch: Json, now: Seq<char>) -> Json {
    let task = priority_patched(status_patched(task, patch, now), patch);
    let task = labels_patched(task, patch);
    let task = text_patched(task, patch, "title"@, "title"@);
    let task = text_patched(task, patch, "body"@, "description"@);
    let task = text_patched(task, patch, "description"@, "description"@);
    field_patched(task, patch, "assignee"@)
}

/// The custom block comes before the flat fields, and after everything else.
pub proof fn lemma_before_custom(task: Json, patch: Json, now: Seq<char>)
    ensures
        task is Object ==> before_custom(task, patch, now) is Object,
        patched(task, patch, now) == flat_patched(
            custom_patched(before_custom(task, patch, now), patch),
            patch,
        ),
{
}

/// A status, an assignee, null included, and labels that a patch gives are honoured where its
/// custom block does not say otherwise.
pub proof fn subject_patch_honours_the_rest(
    task: Json,
    patch: PatchModel,
    patched_at: Seq<char>,
    now: Seq<char>,
)
    requires
        task is Object,
    ensures
        patch.status matches Some(status) ==> (!patch.custom.contains_key("status"@)
            ==> subject_patched(task, patch, patched_at, now).text("status"@) == Some(
            written_status(status),
        )),
        patch.assignee matches Some(assignee) ==> (!patch.custom.contains_key("assignee"@)
            ==> subject_patched(task, patch, patched_at, now).field("assignee"@) == Some(assignee)),
        (patch.labels_add.len() > 0 || patch.labels_remove.len() > 0)
            && !patch.custom.contains_key("tags"@) ==> subject_patched(
            task,
            patch,
            patched_at,
            now,
        ).field("tags"@) == Some(
            json_strings(
                relabelled(strings_at(task, "tags"@), patch.labels_remove, patch.labels_add),
            ),
        ),
{
    let document = patch_document(patch);
    let by = "animus.subject.default"@;
    lemma_names();
    lemma_document(patch);
    lemma_before_custom(task, document, patched_at);
    let before = before_custom(task, document, patched_at);
    let custom = custom_patched(before, document);
    let after = patched(task, document, patched_at);
    if let Some(status) = patch.status {
        status_side_effects(task, written_status(status), patched_at);
    }
    lemma_flat_frame(custom, document, "status"@);
    lemma_flat_frame(custom, document, "assignee"@);
    lemma_flat_frame(custom, document, "tags"@);
    lemma_stamp_frame(after, now, by, "status"@);
    lemma_stamp_frame(after, now, by, "assignee"@);
    lemma_stamp_frame(after, now, by, "tags"@);
    lemma_status_frame(task, document, patched_at, "tags"@);
    let moved = status_patched(task, document, patched_at);
    assert(strings_at(moved, "tags"@) == strings_at(task, "tags"@));
    lemma_labels_frame(moved, document, "status"@);
    if !patch.custom.contains_key("status"@) {
        lemma_custom_frame(before, document, "status"@);
    }
    if !patch.custom.contains_key("assignee"@) {
        lemma_custom_frame(before, document, "assignee"@);
    }
    if !patch.custom.contains_key("tags"@) {
        lemma_custom_frame(before, document, "tags"@);
    }
}

} // verus!
