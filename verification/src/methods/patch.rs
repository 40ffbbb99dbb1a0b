//! Patches to a task payload.
use crate::clock::{is_utc_time, lemma_some_utc_time, now_rfc3339};
use crate::text::{lower_ascii, lowered, same, trim, trimmed};
use crate::value::{
    json_strings, members_of, string_value, string_views, strings_among, strings_in, strings_value,
    Json, Object, Value,
};
use vstd::prelude::*;

verus! {

/// The priority that a given one stands for: white space and letter case do not count, and `p0`
/// to `p3` are short for the four known ones.
pub open spec fn canonical(raw: Seq<char>) -> Seq<char> {
    let plain = lowered(trimmed(raw));
    if plain == "p0"@ {
        "critical"@
    } else if plain == "p1"@ {
        "high"@
    } else if plain == "p2"@ {
        "medium"@
    } else if plain == "p3"@ {
        "low"@
    } else {
        plain
    }
}

/// The priority that a given one stands for.
pub fn canonical_priority(raw: &str) -> (priority: String)
    ensures
        priority@ == canonical(raw@),
{
    let plain = lower_ascii(trim(raw));
    if same(plain.as_str(), "p0") {
        "critical".to_string()
    } else if same(plain.as_str(), "p1") {
        "high".to_string()
    } else if same(plain.as_str(), "p2") {
        "medium".to_string()
    } else if same(plain.as_str(), "p3") {
        "low".to_string()
    } else {
        plain
    }
}

/// Whether a status lifts a pause and a block.
pub open spec fn unblocks(status: Seq<char>) -> bool {
    status == "in-progress"@ || status == "in_progress"@ || status == "ready"@
}

/// Whether a status says that the task is done.
pub open spec fn completes(status: Seq<char>) -> bool {
    status == "completed"@ || status == "done"@
}

/// The task in a status that was given at `now`.
///
/// A block is dated; work in progress and readiness lift a pause and a block; completion is
/// dated in the bookkeeping, where there is any; cancellation sets the flag.
pub open spec fn in_status(task: Json, status: Seq<char>, now: Seq<char>) -> Json {
    let moved = task.with("status"@, Json::String(status));
    if status == "blocked"@ {
        moved.with("blocked_at"@, Json::String(now))
    } else if unblocks(status) {
        moved.with("paused"@, Json::Bool(false)).with("blocked_at"@, Json::Null).with(
            "blocked_reason"@,
            Json::Null,
        ).with("blocked_by"@, Json::Null)
    } else if completes(status) {
        match moved.field("metadata"@) {
            Some(metadata) => moved.with(
                "metadata"@,
                metadata.with("completed_at"@, Json::String(now)),
            ),
            None => moved,
        }
    } else if status == "cancelled"@ {
        moved.with("cancelled"@, Json::Bool(true))
    } else {
        moved
    }
}

/// Puts a task in a status, with the side effects of that status.
pub fn set_status_field(task: &mut Value, status: &str, now: &str)
    ensures
        final(task)@ == in_status(old(task)@, status@, now@),
{
    task.set("status", string_value(status));
    if same(status, "blocked") {
        task.set("blocked_at", string_value(now));
    } else if same(status, "in-progress") || same(status, "in_progress") || same(status, "ready") {
        task.set("paused", Value::Bool(false));
        task.set("blocked_at", Value::Null);
        task.set("blocked_reason", Value::Null);
        task.set("blocked_by", Value::Null);
    } else if same(status, "completed") || same(status, "done") {
        let metadata = match task.get("metadata") {
            Some(m) => Some(m.clone()),
            None => None,
        };
        if let Some(mut m) = metadata {
            m.set("completed_at", string_value(now));
            task.set("metadata", m);
        }
    } else if same(status, "cancelled") {
        task.set("cancelled", Value::Bool(true));
    }
}

/// The fields of a task that a patch sets as they are, null included.
pub open spec fn is_task_field(key: Seq<char>) -> bool {
    ||| key == "paused"@
    ||| key == "cancelled"@
    ||| key == "scope"@
    ||| key == "risk"@
    ||| key == "deadline"@
    ||| key == "task_type"@
    ||| key == "blocked_reason"@
    ||| key == "blocked_at"@
    ||| key == "blocked_by"@
    ||| key == "assignee"@
    ||| key == "linked_requirements"@
    ||| key == "linked_architecture_entities"@
}

fn task_field(key: &str) -> (yes: bool)
    ensures
        yes == is_task_field(key@),
{
    same(key, "paused") || same(key, "cancelled") || same(key, "scope") || same(key, "risk")
        || same(key, "deadline") || same(key, "task_type") || same(key, "blocked_reason") || same(
        key,
        "blocked_at",
    ) || same(key, "blocked_by") || same(key, "assignee") || same(key, "linked_requirements")
        || same(key, "linked_architecture_entities")
}

/// Whether a patch of `key` with `value` sets it; otherwise it takes the field out.
pub open spec fn sets(key: Seq<char>, value: Json) -> bool {
    is_task_field(key) || value != Json::Null
}

/// The task with a custom field patched.
pub open spec fn with_custom_field(task: Json, key: Seq<char>, value: Json) -> Json {
    if sets(key, value) {
        task.with(key, value)
    } else {
        task.without(key)
    }
}

/// Patches a custom field. Null takes a field out that is not one of the task's own.
pub fn apply_custom_field(task: &mut Value, key: &str, value: &Value)
    ensures
        final(task)@ == with_custom_field(old(task)@, key@, value@),
{
    if task_field(key) || !value.is_null() {
        task.set(key, value.clone());
    } else {
        task.unset(key);
    }
}

/// The task with each member of a custom block patched.
pub open spec fn with_custom_fields(task: Json, custom: Map<Seq<char>, Json>) -> Json {
    match task {
        Json::Object(m) => Json::Object(
            Map::new(
                |k: Seq<char>|
                    if custom.contains_key(k) {
                        sets(k, custom[k])
                    } else {
                        m.contains_key(k)
                    },
                |k: Seq<char>|
                    if custom.contains_key(k) {
                        custom[k]
                    } else {
                        m[k]
                    },
            ),
        ),
        _ => task,
    }
}

/// A custom block without members changes nothing.
proof fn lemma_no_custom_fields(task: Json)
    ensures
        with_custom_fields(task, Map::empty()) == task,
{
    if let Json::Object(m) = task {
        assert(with_custom_fields(task, Map::empty())->Object_0 =~= m);
    }
}

/// Patching one more member patches the larger block.
proof fn lemma_one_more_custom_field(
    task: Json,
    custom: Map<Seq<char>, Json>,
    key: Seq<char>,
    value: Json,
)
    ensures
        with_custom_field(with_custom_fields(task, custom), key, value) == with_custom_fields(
            task,
            custom.insert(key, value),
        ),
{
    if task is Object {
        assert(with_custom_field(with_custom_fields(task, custom), key, value)->Object_0
            =~= with_custom_fields(task, custom.insert(key, value))->Object_0);
    }
}

fn apply_custom_block(task: &mut Value, custom: &Object)
    ensures
        final(task)@ == with_custom_fields(old(task)@, custom@),
{
    let ghost pairs = custom.pairs();
    let ghost before = task@;
    proof {
        custom.pairs_make_members();
        lemma_no_custom_fields(before);
    }
    let len: usize = custom.len();
    for i in 0..len
        invariant
            pairs == custom.pairs(),
            len == pairs.len(),
            task@ == with_custom_fields(before, members_of(pairs.take(i as int))),
    {
        proof {
            assert(pairs.take(i + 1).drop_last() == pairs.take(i as int));
            lemma_one_more_custom_field(
                before,
                members_of(pairs.take(i as int)),
                pairs[i as int].0,
                pairs[i as int].1,
            );
        }
        apply_custom_field(task, custom.key_at(i), custom.value_at(i));
    }
    assert(pairs.take(pairs.len() as int) == pairs);
}

/// The strings of the array member `key`; none where there is no such array.
pub open spec fn strings_at(j: Json, key: Seq<char>) -> Seq<Seq<char>> {
    match j.items(key) {
        Some(items) => strings_among(items),
        None => Seq::empty(),
    }
}

/// The strings of the array member `key`; none where there is no such array.
pub fn string_array(params: &Value, key: &str) -> (strings: Vec<String>)
    ensures
        string_views(strings@) == strings_at(params@, key@),
{
    match params.items(key) {
        Some(items) => strings_in(items),
        None => {
            let none: Vec<String> = Vec::new();
            assert(string_views(none@) =~= Seq::<Seq<char>>::empty());
            none
        },
    }
}

/// The labels with those of `add` appended, each in its turn, that are not there yet.
pub open spec fn with_labels(labels: Seq<Seq<char>>, add: Seq<Seq<char>>) -> Seq<Seq<char>>
    decreases add.len(),
{
    if add.len() == 0 {
        labels
    } else {
        let before = with_labels(labels, add.drop_last());
        if before.contains(add.last()) {
            before
        } else {
            before.push(add.last())
        }
    }
}

/// The labels without those of `remove`, and then with those of `add`.
pub open spec fn relabelled(
    labels: Seq<Seq<char>>,
    remove: Seq<Seq<char>>,
    add: Seq<Seq<char>>,
) -> Seq<Seq<char>> {
    with_labels(labels.filter(|l: Seq<char>| !remove.contains(l)), add)
}

/// Whether a string is among others.
pub fn holds(strings: &Vec<String>, s: &str) -> (yes: bool)
    ensures
        yes == string_views(strings@).contains(s@),
{
    let ghost views = string_views(strings@);
    for i in 0..strings.len()
        invariant
            views == string_views(strings@),
            forall|j: int| 0 <= j < i ==> views[j] != s@,
    {
        if same(strings[i].as_str(), s) {
            assert(views[i as int] == s@);
            return true;
        }
    }
    false
}

fn relabel(labels: &Vec<String>, remove: &Vec<String>, add: &Vec<String>) -> (out: Vec<String>)
    ensures
        string_views(out@) == relabelled(
            string_views(labels@),
            string_views(remove@),
            string_views(add@),
        ),
{
    let ghost old_labels = string_views(labels@);
    let ghost removed = string_views(remove@);
    let ghost added = string_views(add@);
    let ghost stays = |l: Seq<char>| !removed.contains(l);
    let mut out: Vec<String> = Vec::new();
    proof {
        reveal(Seq::filter);
        assert(string_views(out@) =~= old_labels.take(0).filter(stays));
    }
    for i in 0..labels.len()
        invariant
            old_labels == string_views(labels@),
            removed == string_views(remove@),
            stays == (|l: Seq<char>| !removed.contains(l)),
            string_views(out@) == old_labels.take(i as int).filter(stays),
    {
        proof {
            reveal(Seq::filter);
            assert(old_labels.take(i + 1).drop_last() == old_labels.take(i as int));
            assert(old_labels.take(i + 1).last() == labels@[i as int]@);
        }
        if !holds(remove, labels[i].as_str()) {
            let ghost before = out@;
            out.push(labels[i].clone());
            assert(string_views(out@) =~= string_views(before).push(labels@[i as int]@));
        }
    }
    assert(old_labels.take(old_labels.len() as int) == old_labels);
    let ghost kept = string_views(out@);
    for i in 0..add.len()
        invariant
            added == string_views(add@),
            string_views(out@) == with_labels(kept, added.take(i as int)),
    {
        proof {
            assert(added.take(i + 1).drop_last() == added.take(i as int));
            assert(added.take(i + 1).last() == add@[i as int]@);
        }
        if !holds(&out, add[i].as_str()) {
            let ghost before = out@;
            out.push(add[i].clone());
            assert(string_views(out@) =~= string_views(before).push(add@[i as int]@));
        }
    }
    assert(added.take(added.len() as int) == added);
    out
}

/// The task with the status of the patch, if it has one.
pub open spec fn status_patched(task: Json, patch: Json, now: Seq<char>) -> Json {
    match patch.text("status"@) {
        Some(status) => in_status(task, status, now),
        None => task,
    }
}

/// The task with the priority of the patch, if it has one.
pub open spec fn priority_patched(task: Json, patch: Json) -> Json {
    match patch.text("priority"@) {
        Some(priority) => task.with("priority"@, Json::String(canonical(priority))),
        None => task,
    }
}

/// The task with the labels of the patch: replaced, then some taken out, then some added.
pub open spec fn labels_patched(task: Json, patch: Json) -> Json {
    let replaced = match patch.items("labels"@) {
        Some(labels) => task.with("tags"@, json_strings(strings_among(labels))),
        None => task,
    };
    let add = strings_at(patch, "labels_add"@);
    let remove = strings_at(patch, "labels_remove"@);
    if add.len() == 0 && remove.len() == 0 {
        replaced
    } else {
        replaced.with(
            "tags"@,
            json_strings(relabelled(strings_at(replaced, "tags"@), remove, add)),
        )
    }
}

/// The task with the field `to` set to the text `from` of the patch, if it has one.
pub open spec fn text_patched(task: Json, patch: Json, from: Seq<char>, to: Seq<char>) -> Json {
    match patch.text(from) {
        Some(text) => task.with(to, Json::String(text)),
        None => task,
    }
}

/// The task with the field `key` of the patch as it is, if it has one.
pub open spec fn field_patched(task: Json, patch: Json, key: Seq<char>) -> Json {
    match patch.field(key) {
        Some(value) => task.with(key, value),
        None => task,
    }
}

/// The task with the custom block of the patch, if it has one.
pub open spec fn custom_patched(task: Json, patch: Json) -> Json {
    match patch.field("custom"@) {
        Some(Json::Object(custom)) => with_custom_fields(task, custom),
        _ => task,
    }
}

/// The task with the fields that a patch may also carry outside its custom block.
pub open spec fn flat_patched(task: Json, patch: Json) -> Json {
    let task = field_patched(task, patch, "paused"@);
    let task = field_patched(task, patch, "cancelled"@);
    let task = field_patched(task, patch, "scope"@);
    let task = field_patched(task, patch, "risk"@);
    let task = field_patched(task, patch, "deadline"@);
    let task = field_patched(task, patch, "task_type"@);
    let task = field_patched(task, patch, "blocked_reason"@);
    let task = field_patched(task, patch, "blocked_at"@);
    field_patched(task, patch, "blocked_by"@)
}

/// The task with all of the patch but its status.
pub open spec fn undated_patched(task: Json, patch: Json) -> Json {
    let task = priority_patched(task, patch);
    let task = labels_patched(task, patch);
    let task = text_patched(task, patch, "title"@, "title"@);
    let task = text_patched(task, patch, "body"@, "description"@);
    let task = text_patched(task, patch, "description"@, "description"@);
    let task = field_patched(task, patch, "assignee"@);
    let task = custom_patched(task, patch);
    flat_patched(task, patch)
}

/// The task with the whole patch, whose status is given at `now`.
pub open spec fn patched(task: Json, patch: Json, now: Seq<char>) -> Json {
    undated_patched(status_patched(task, patch, now), patch)
}

/// The patch that a document stands for: its member `patch`, where that is an object, or else the
/// document itself.
pub open spec fn patch_in(document: Json) -> Json {
    match document.field("patch"@) {
        Some(Json::Object(patch)) => Json::Object(patch),
        _ => document,
    }
}

fn patch_labels(task: &mut Value, patch: &Value)
    ensures
        final(task)@ == labels_patched(old(task)@, patch@),
{
    if let Some(labels) = patch.items("labels") {
        task.set("tags", strings_value(&strings_in(labels)));
    }
    let add = string_array(patch, "labels_add");
    let remove = string_array(patch, "labels_remove");
    if add.len() > 0 || remove.len() > 0 {
        let tags = string_array(task, "tags");
        task.set("tags", strings_value(&relabel(&tags, &remove, &add)));
    }
}

fn patch_text(task: &mut Value, patch: &Value, from: &str, to: &str)
    ensures
        final(task)@ == text_patched(old(task)@, patch@, from@, to@),
{
    if let Some(text) = patch.text(from) {
        task.set(to, string_value(text));
    }
}

fn patch_field(task: &mut Value, patch: &Value, key: &str)
    ensures
        final(task)@ == field_patched(old(task)@, patch@, key@),
{
    if let Some(value) = patch.get(key) {
        task.set(key, value.clone());
    }
}

fn apply_undated(task: &mut Value, patch: &Value)
    ensures
        final(task)@ == undated_patched(old(task)@, patch@),
{
    if let Some(priority) = patch.text("priority") {
        task.set("priority", Value::String(canonical_priority(priority)));
    }
    patch_labels(task, patch);
    patch_text(task, patch, "title", "title");
    patch_text(task, patch, "body", "description");
    patch_text(task, patch, "description", "description");
    patch_field(task, patch, "assignee");
    if let Some(Value::Object(custom)) = patch.get("custom") {
        apply_custom_block(task, custom);
    }
    patch_field(task, patch, "paused");
    patch_field(task, patch, "cancelled");
    patch_field(task, patch, "scope");
    patch_field(task, patch, "risk");
    patch_field(task, patch, "deadline");
    patch_field(task, patch, "task_type");
    patch_field(task, patch, "blocked_reason");
    patch_field(task, patch, "blocked_at");
    patch_field(task, patch, "blocked_by");
}

/// Applies a patch that stands by itself, and whose status is given at `now`.
pub fn apply_patch_at(task: &mut Value, patch: &Value, now: &str)
    ensures
        final(task)@ == patched(old(task)@, patch@, now@),
{
    if let Some(status) = patch.text("status") {
        set_status_field(task, status, now);
    }
    apply_undated(task, patch);
}

/// Applies a patch that stands by itself, now. The clock is read for a status only.
pub fn apply_plain_patch(task: &mut Value, patch: &Value)
    ensures
        exists|now: Seq<char>|
            is_utc_time(now) && final(task)@ == #[trigger] patched(old(task)@, patch@, now),
{
    let ghost before = task@;
    let ghost mut at: Seq<char> = lemma_some_utc_time();
    if let Some(status) = patch.text("status") {
        let now = now_rfc3339();
        set_status_field(task, status, now.as_str());
        proof {
            at = now@;
        }
    }
    assert(task@ == status_patched(before, patch@, at));
    apply_undated(task, patch);
    assert(task@ == patched(before, patch@, at));
}

/// The patch that a document stands for.
pub fn plain_patch(document: &Value) -> (patch: &Value)
    ensures
        patch@ == patch_in(document@),
{
    match document.get("patch") {
        Some(patch) => if patch.as_object().is_some() {
            patch
        } else {
            document
        },
        None => document,
    }
}

/// Applies a patch now. The patch stands by itself, or is the member `patch`, an object, of the
/// document that is handed over. It has top-level fields, a custom block, and the custom fields that older
/// clients put at the top level.
pub fn apply_patch(task: &mut Value, patch: &Value)
    ensures
        exists|now: Seq<char>|
            is_utc_time(now) && final(task)@ == #[trigger] patched(
                old(task)@,
                patch_in(patch@),
                now,
            ),
{
    apply_plain_patch(task, plain_patch(patch));
}

} // verus!
