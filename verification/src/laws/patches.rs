//! Patches.
use crate::laws::names::lemma_names;
use crate::laws::sequences::lemma_filter;
use crate::laws::statuses::{status_side_effects, touched_by_status};
use crate::laws::subjects::{before_custom, lemma_before_custom};
use crate::methods::patch::{
    canonical, custom_patched, field_patched, flat_patched, in_status, is_task_field,
    labels_patched, patch_in, patched, priority_patched, relabelled, status_patched, text_patched,
    with_labels,
};
use crate::value::Json;
use vstd::prelude::*;

verus! {

/// A patch without members changes nothing, and neither does one that is not an object.
pub proof fn empty_patch_changes_nothing(task: Json, patch: Json, now: Seq<char>)
    requires
        patch matches Json::Object(m) ==> m == Map::<Seq<char>, Json>::empty(),
    ensures
        patched(task, patch, now) == task,
{
}

/// A patch may come as the member `patch` of a document; what stands beside it does not count then.
/// A document whose member `patch` is missing or no object is a patch itself.
pub proof fn wrapped_patches_are_patches(
    patch: Map<Seq<char>, Json>,
    members: Map<Seq<char>, Json>,
    document: Json,
)
    ensures
        patch_in(Json::Object(members.insert("patch"@, Json::Object(patch)))) == Json::Object(
            patch,
        ),
        !(document.field("patch"@) matches Some(Json::Object(_))) ==> patch_in(document)
            == document,
{
}

/// A task that is not an object is never changed.
pub proof fn only_objects_are_patched(task: Json, patch: Json, now: Seq<char>)
    requires
        !(task is Object),
    ensures
        patched(task, patch, now) == task,
{
}

/// An object stays an object.
pub proof fn patched_objects_are_objects(task: Json, patch: Json, now: Seq<char>)
    requires
        task is Object,
    ensures
        patched(task, patch, now) is Object,
{
}

/// Only a status makes a patch depend on the time.
pub proof fn only_a_status_is_dated(task: Json, patch: Json, now: Seq<char>, later: Seq<char>)
    requires
        patch.text("status"@) is None,
    ensures
        patched(task, patch, now) == patched(task, patch, later),
{
}

/// The fields that may also stand outside the custom block.
pub open spec fn is_flat_field(key: Seq<char>) -> bool {
    ||| key == "paused"@
    ||| key == "cancelled"@
    ||| key == "scope"@
    ||| key == "risk"@
    ||| key == "deadline"@
    ||| key == "task_type"@
    ||| key == "blocked_reason"@
    ||| key == "blocked_at"@
    ||| key == "blocked_by"@
}

/// Whether a patch may change the member `key` of a task.
pub open spec fn touched_by_patch(patch: Json, key: Seq<char>) -> bool {
    ||| patch.text("status"@) matches Some(status) && touched_by_status(status, key)
    ||| key == "priority"@ && patch.text("priority"@) is Some
    ||| key == "tags"@ && (patch.items("labels"@) is Some || patch.items("labels_add"@) is Some
        || patch.items("labels_remove"@) is Some)
    ||| key == "title"@ && patch.text("title"@) is Some
    ||| key == "description"@ && (patch.text("body"@) is Some || patch.text("description"@) is Some)
    ||| key == "assignee"@ && patch.field("assignee"@) is Some
    ||| patch.nested("custom"@, key) is Some
    ||| is_flat_field(key) && patch.field(key) is Some
}

/// The flat fields that a patch does not name stay.
pub proof fn lemma_flat_frame(task: Json, patch: Json, key: Seq<char>)
    requires
        !(is_flat_field(key) && patch.field(key) is Some),
    ensures
        flat_patched(task, patch).field(key) == task.field(key),
{
}

/// A patch of labels touches the tags only.
pub proof fn lemma_labels_frame(task: Json, patch: Json, key: Seq<char>)
    requires
        key != "tags"@ || (patch.items("labels"@) is None && patch.items("labels_add"@) is None
            && patch.items("labels_remove"@) is None),
    ensures
        labels_patched(task, patch).field(key) == task.field(key),
{
}

/// What a custom block does not name stays.
pub proof fn lemma_custom_frame(task: Json, patch: Json, key: Seq<char>)
    requires
        patch.nested("custom"@, key) is None,
    ensures
        custom_patched(task, patch).field(key) == task.field(key),
{
}

/// What a status does not bring with it stays.
pub proof fn lemma_status_frame(task: Json, patch: Json, now: Seq<char>, key: Seq<char>)
    requires
        patch.text("status"@) matches Some(status) ==> !touched_by_status(status, key),
    ensures
        status_patched(task, patch, now).field(key) == task.field(key),
{
    lemma_names();
    if task is Object {
        if let Some(status) = patch.text("status"@) {
            status_side_effects(task, status, now);
        }
    }
}

/// A patch changes nothing but what it names and what its status brings with it.
pub proof fn patches_touch_what_they_name(task: Json, patch: Json, now: Seq<char>, key: Seq<char>)
    requires
        !touched_by_patch(patch, key),
    ensures
        patched(task, patch, now).field(key) == task.field(key),
{
    let moved = status_patched(task, patch, now);
    lemma_status_frame(task, patch, now, key);
    let ranked = priority_patched(moved, patch);
    assert(ranked.field(key) == moved.field(key));
    let labelled = labels_patched(ranked, patch);
    lemma_labels_frame(ranked, patch, key);
    let titled = text_patched(labelled, patch, "title"@, "title"@);
    assert(titled.field(key) == labelled.field(key));
    let bodied = text_patched(titled, patch, "body"@, "description"@);
    assert(bodied.field(key) == titled.field(key));
    let described = text_patched(bodied, patch, "description"@, "description"@);
    assert(described.field(key) == bodied.field(key));
    let assigned = field_patched(described, patch, "assignee"@);
    assert(assigned.field(key) == described.field(key));
    let custom = custom_patched(assigned, patch);
    lemma_custom_frame(assigned, patch, key);
    lemma_flat_frame(custom, patch, key);
}

/// A patch does not rename a task, unless its custom block says an id.
pub proof fn patches_keep_the_id(task: Json, patch: Json, now: Seq<char>)
    requires
        patch.nested("custom"@, "id"@) is None,
    ensures
        patched(task, patch, now).field("id"@) == task.field("id"@),
{
    lemma_names();
    patches_touch_what_they_name(task, patch, now, "id"@);
}

/// A custom block sets each of its members, null included where it is one of the task's own
/// fields; null takes any other member out; what the block does not name stays.
pub proof fn custom_block_is_applied(
    task: Json,
    custom: Map<Seq<char>, Json>,
    now: Seq<char>,
    key: Seq<char>,
)
    requires
        task is Object,
    ensures
        patched(task, Json::Object(map!["custom"@ => Json::Object(custom)]), now).field(key) == (
        if !custom.contains_key(key) {
            task.field(key)
        } else if is_task_field(key) || custom[key] != Json::Null {
            Some(custom[key])
        } else {
            None
        }),
{
    lemma_names();
}

/// A field that stands outside the custom block is patched as it is inside.
pub proof fn flat_fields_are_custom_fields(task: Json, key: Seq<char>, value: Json, now: Seq<char>)
    requires
        is_flat_field(key),
    ensures
        patched(task, Json::Object(map![key => value]), now) == patched(
            task,
            Json::Object(map!["custom"@ => Json::Object(map![key => value])]),
            now,
        ),
{
    lemma_names();
    if task is Object {
        let flat = patched(task, Json::Object(map![key => value]), now);
        let custom = patched(
            task,
            Json::Object(map!["custom"@ => Json::Object(map![key => value])]),
            now,
        );
        assert(flat->Object_0 =~= task->Object_0.insert(key, value));
        assert(custom->Object_0 =~= task->Object_0.insert(key, value));
    }
}

/// A patch that only says a status puts the task in that status.
pub proof fn status_patch_is_a_status(task: Json, status: Seq<char>, now: Seq<char>)
    ensures
        patched(task, Json::Object(map!["status"@ => Json::String(status)]), now) == in_status(
            task,
            status,
            now,
        ),
{
    lemma_names();
}

proof fn lemma_flat_sets(task: Json, patch: Json, key: Seq<char>)
    requires
        task is Object,
        is_flat_field(key),
        patch.field(key) is Some,
    ensures
        flat_patched(task, patch).field(key) == patch.field(key),
{
    lemma_names();
}

/// Outside a custom block each member that a patch may have sets its field: a status, a title, a
/// priority in its canonical form, labels, an assignee, null included, and the flat fields. Of
/// `body` and `description`, which are one field, the latter wins.
pub proof fn named_members_are_set(task: Json, patch: Json, now: Seq<char>, key: Seq<char>)
    requires
        task is Object,
        patch.field("custom"@) is None,
    ensures
        patch.text("status"@) matches Some(status) ==> patched(task, patch, now).text("status"@)
            == Some(status),
        patch.text("title"@) matches Some(title) ==> patched(task, patch, now).text("title"@)
            == Some(title),
        patch.text("priority"@) matches Some(priority) ==> patched(task, patch, now).text(
            "priority"@,
        ) == Some(canonical(priority)),
        patch.text("description"@) matches Some(description) ==> patched(task, patch, now).text(
            "description"@,
        ) == Some(description),
        patch.text("body"@) matches Some(body) ==> (patch.text("description"@) is None ==> patched(
            task,
            patch,
            now,
        ).text("description"@) == Some(body)),
        patch.field("assignee"@) matches Some(assignee) ==> patched(task, patch, now).field(
            "assignee"@,
        ) == Some(assignee),
        patched(task, patch, now).field("tags"@) == labels_patched(task, patch).field("tags"@),
        is_flat_field(key) && patch.field(key) is Some ==> patched(task, patch, now).field(key)
            == patch.field(key),
{
    lemma_names();
    let moved = status_patched(task, patch, now);
    let ranked = priority_patched(moved, patch);
    let labelled = labels_patched(ranked, patch);
    let titled = text_patched(labelled, patch, "title"@, "title"@);
    let bodied = text_patched(titled, patch, "body"@, "description"@);
    let described = text_patched(bodied, patch, "description"@, "description"@);
    let assigned = field_patched(described, patch, "assignee"@);
    if let Some(status) = patch.text("status"@) {
        status_side_effects(task, status, now);
    }
    lemma_status_frame(task, patch, now, "tags"@);
    assert(ranked.field("tags"@) == task.field("tags"@));
    lemma_labels_frame(ranked, patch, "status"@);
    lemma_labels_frame(ranked, patch, "priority"@);
    lemma_flat_frame(assigned, patch, "status"@);
    lemma_flat_frame(assigned, patch, "title"@);
    lemma_flat_frame(assigned, patch, "priority"@);
    lemma_flat_frame(assigned, patch, "description"@);
    lemma_flat_frame(assigned, patch, "assignee"@);
    lemma_flat_frame(assigned, patch, "tags"@);
    if is_flat_field(key) && patch.field(key) is Some {
        lemma_flat_sets(assigned, patch, key);
    }
}

proof fn lemma_added_labels(labels: Seq<Seq<char>>, add: Seq<Seq<char>>)
    ensures
        labels.is_prefix_of(with_labels(labels, add)),
        forall|l: Seq<char>| #[trigger]
            with_labels(labels, add).contains(l) == (labels.contains(l) || add.contains(l)),
        labels.no_duplicates() ==> with_labels(labels, add).no_duplicates(),
    decreases add.len(),
{
    broadcast use vstd::seq_lib::group_seq_properties;

    if add.len() > 0 {
        lemma_added_labels(labels, add.drop_last());
        let before = with_labels(labels, add.drop_last());
        assert(add == add.drop_last().push(add.last()));
    }
}

/// After a patch of the labels a label is there if it was added, or if it was there and was not
/// taken out. Labels that stay keep their order and stand before the new ones; none occurs twice
/// that did not before.
pub proof fn labels_are_removed_and_added(
    labels: Seq<Seq<char>>,
    remove: Seq<Seq<char>>,
    add: Seq<Seq<char>>,
)
    ensures
        forall|l: Seq<char>| #[trigger]
            relabelled(labels, remove, add).contains(l) == (add.contains(l) || (labels.contains(l)
                && !remove.contains(l))),
        labels.filter(|l: Seq<char>| !remove.contains(l)).is_prefix_of(
            relabelled(labels, remove, add),
        ),
        labels.no_duplicates() ==> relabelled(labels, remove, add).no_duplicates(),
{
    let stays = |l: Seq<char>| !remove.contains(l);
    lemma_filter(labels, stays);
    lemma_added_labels(labels.filter(stays), add);
}

/// A status in a patch has its side effects as far as the patch does not say otherwise itself.
pub proof fn patched_statuses_have_their_effects(
    task: Json,
    patch: Json,
    status: Seq<char>,
    now: Seq<char>,
    key: Seq<char>,
)
    requires
        patch.text("status"@) == Some(status),
        key != "priority"@,
        key != "tags"@,
        key != "title"@,
        key != "description"@,
        key != "assignee"@,
        patch.nested("custom"@, key) is None,
        !(is_flat_field(key) && patch.field(key) is Some),
    ensures
        patched(task, patch, now).field(key) == in_status(task, status, now).field(key),
{
    let moved = status_patched(task, patch, now);
    let ranked = priority_patched(moved, patch);
    assert(ranked.field(key) == moved.field(key));
    let labelled = labels_patched(ranked, patch);
    lemma_labels_frame(ranked, patch, key);
    let titled = text_patched(labelled, patch, "title"@, "title"@);
    assert(titled.field(key) == labelled.field(key));
    let bodied = text_patched(titled, patch, "body"@, "description"@);
    assert(bodied.field(key) == titled.field(key));
    let described = text_patched(bodied, patch, "description"@, "description"@);
    assert(described.field(key) == bodied.field(key));
    let assigned = field_patched(described, patch, "assignee"@);
    assert(assigned.field(key) == described.field(key));
    let custom = custom_patched(assigned, patch);
    lemma_custom_frame(assigned, patch, key);
    lemma_flat_frame(custom, patch, key);
}

/// The order in which a patch speaks: a flat field outside the custom block has the last word; then
/// comes the custom block, before everything else. Null in a custom block takes a member out,
/// unless it is one of `paused`, `cancelled`, `scope`, `risk`, `deadline`, `task_type`,
/// `blocked_reason`, `blocked_at`, `blocked_by`, `assignee`, `linked_requirements` and
/// `linked_architecture_entities`, which it sets to null.
pub proof fn flat_fields_and_custom_blocks_win(
    task: Json,
    patch: Json,
    custom: Map<Seq<char>, Json>,
    now: Seq<char>,
    key: Seq<char>,
)
    requires
        task is Object,
        patch.field("custom"@) == Some(Json::Object(custom)) || (patch.field("custom"@) is None
            && custom == Map::<Seq<char>, Json>::empty()),
    ensures
        is_flat_field(key) && patch.field(key) is Some ==> patched(task, patch, now).field(key)
            == patch.field(key),
        !(is_flat_field(key) && patch.field(key) is Some) && custom.contains_key(key) ==> patched(
            task,
            patch,
            now,
        ).field(key) == (if custom[key] != Json::Null || key == "paused"@ || key == "cancelled"@
            || key == "scope"@ || key == "risk"@ || key == "deadline"@ || key == "task_type"@ || key
            == "blocked_reason"@ || key == "blocked_at"@ || key == "blocked_by"@ || key
            == "assignee"@ || key == "linked_requirements"@ || key
            == "linked_architecture_entities"@ {
            Some(custom[key])
        } else {
            None
        }),
{
    lemma_before_custom(task, patch, now);
    let before = before_custom(task, patch, now);
    let blocked = custom_patched(before, patch);
    assert(blocked is Object);
    if is_flat_field(key) && patch.field(key) is Some {
        lemma_flat_sets(blocked, patch, key);
    } else {
        lemma_flat_frame(blocked, patch, key);
    }
}

/// Each member that a patch may have sets its field also beside a custom block that does not name
/// that field: a status, a title, a description, which wins over a body, a priority in canonical
/// form, and an assignee, null included.
pub proof fn named_members_are_set_beside_a_custom_block(task: Json, patch: Json, now: Seq<char>)
    requires
        task is Object,
    ensures
        patch.nested("custom"@, "status"@) is None ==> (patch.text("status"@) matches Some(status)
            ==> patched(task, patch, now).field("status"@) == Some(Json::String(status))),
        patch.nested("custom"@, "title"@) is None ==> (patch.text("title"@) matches Some(title)
            ==> patched(task, patch, now).field("title"@) == Some(Json::String(title))),
        patch.nested("custom"@, "priority"@) is None ==> (patch.text("priority"@) matches Some(
            priority,
        ) ==> patched(task, patch, now).field("priority"@) == Some(
            Json::String(canonical(priority)),
        )),
        patch.nested("custom"@, "description"@) is None ==> (patch.text(
            "description"@,
        ) matches Some(description) ==> patched(task, patch, now).field("description"@) == Some(
            Json::String(description),
        )),
        patch.nested("custom"@, "description"@) is None && patch.text("description"@) is None ==> (
        patch.text("body"@) matches Some(body) ==> patched(task, patch, now).field("description"@)
            == Some(Json::String(body))),
        patch.nested("custom"@, "assignee"@) is None ==> (patch.field("assignee"@) matches Some(
            assignee,
        ) ==> patched(task, patch, now).field("assignee"@) == Some(assignee)),
{
    lemma_names();
    lemma_before_custom(task, patch, now);
    let before = before_custom(task, patch, now);
    let custom = custom_patched(before, patch);
    let moved = status_patched(task, patch, now);
    let ranked = priority_patched(moved, patch);
    if let Some(status) = patch.text("status"@) {
        status_side_effects(task, status, now);
    }
    lemma_labels_frame(ranked, patch, "status"@);
    lemma_labels_frame(ranked, patch, "priority"@);
    lemma_flat_frame(custom, patch, "status"@);
    lemma_flat_frame(custom, patch, "title"@);
    lemma_flat_frame(custom, patch, "priority"@);
    lemma_flat_frame(custom, patch, "description"@);
    lemma_flat_frame(custom, patch, "assignee"@);
    if patch.nested("custom"@, "status"@) is None {
        lemma_custom_frame(before, patch, "status"@);
    }
    if patch.nested("custom"@, "title"@) is None {
        lemma_custom_frame(before, patch, "title"@);
    }
    if patch.nested("custom"@, "priority"@) is None {
        lemma_custom_frame(before, patch, "priority"@);
    }
    if patch.nested("custom"@, "description"@) is None {
        lemma_custom_frame(before, patch, "description"@);
    }
    if patch.nested("custom"@, "assignee"@) is None {
        lemma_custom_frame(before, patch, "assignee"@);
    }
}

} // verus!
