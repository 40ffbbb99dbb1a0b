//! Labels: which strings an array gives, and what a patch makes of the tags.
use crate::laws::names::lemma_names;
use crate::laws::patches::{
    labels_are_removed_and_added, lemma_custom_frame, lemma_flat_frame, lemma_status_frame,
};
use crate::laws::subjects::{before_custom, lemma_before_custom};
use crate::methods::patch::{
    custom_patched, labels_patched, patched, priority_patched, relabelled, status_patched,
    strings_at, with_labels,
};
use crate::value::{json_strings, strings_among, Json};
use vstd::prelude::*;

verus! {

/// The strings that an array holds, from the first to the last; anything but an array holds none.
pub open spec fn words(found: Option<Json>) -> Seq<Seq<char>> {
    match found {
        Some(Json::Array(items)) => words_of(items),
        _ => Seq::empty(),
    }
}

/// The strings among items, from the first to the last.
pub open spec fn words_of(items: Seq<Json>) -> Seq<Seq<char>>
    decreases items.len(),
{
    if items.len() == 0 {
        Seq::empty()
    } else {
        match items[0] {
            Json::String(word) => seq![word] + words_of(items.skip(1)),
            _ => words_of(items.skip(1)),
        }
    }
}

/// An array of strings.
pub open spec fn array_of(words: Seq<Seq<char>>) -> Json {
    Json::Array(Seq::new(words.len(), |i: int| Json::String(words[i])))
}

proof fn lemma_last_word(items: Seq<Json>)
    requires
        items.len() > 0,
    ensures
        words_of(items) == words_of(items.drop_last()) + (match items.last() {
            Json::String(word) => seq![word],
            _ => Seq::<Seq<char>>::empty(),
        }),
    decreases items.len(),
{
    let last = match items.last() {
        Json::String(word) => seq![word],
        _ => Seq::<Seq<char>>::empty(),
    };
    let rest = items.skip(1);
    if items.len() == 1 {
        assert(items.drop_last().len() == 0);
        assert(rest.len() == 0);
        assert(items.last() == items[0]);
        assert(words_of(rest) == Seq::<Seq<char>>::empty());
        assert(words_of(items.drop_last()) == Seq::<Seq<char>>::empty());
        assert(words_of(items) =~= words_of(items.drop_last()) + last);
    } else {
        lemma_last_word(rest);
        assert(rest.last() == items.last());
        assert(items.drop_last().skip(1) =~= rest.drop_last());
        assert(items.drop_last()[0] == items[0]);
        assert(words_of(items) =~= words_of(items.drop_last()) + last);
    }
}

/// The strings that are read from an array are its strings, in their order.
pub proof fn strings_are_read_in_order(items: Seq<Json>)
    ensures
        strings_among(items) == words_of(items),
    decreases items.len(),
{
    if items.len() > 0 {
        strings_are_read_in_order(items.drop_last());
        lemma_last_word(items);
        assert(strings_among(items) =~= words_of(items));
    }
}

/// The strings of a member that is an array are its strings, in their order.
pub proof fn strings_of_a_member_are_read(document: Json, key: Seq<char>)
    ensures
        strings_at(document, key) == words(document.field(key)),
{
    if let Some(items) = document.items(key) {
        strings_are_read_in_order(items);
    }
}

/// An array of strings is written with each string at its place.
pub proof fn strings_are_written_in_order(strings: Seq<Seq<char>>)
    ensures
        json_strings(strings) == array_of(strings),
{
    assert(json_strings(strings)->Array_0 =~= array_of(strings)->Array_0);
}

/// The labels of `add` that are new to `have`, each once, in the order of `add`.
pub open spec fn new_labels(have: Seq<Seq<char>>, add: Seq<Seq<char>>) -> Seq<Seq<char>>
    decreases add.len(),
{
    if add.len() == 0 {
        Seq::empty()
    } else if have.contains(add[0]) {
        new_labels(have, add.skip(1))
    } else {
        seq![add[0]] + new_labels(have.push(add[0]), add.skip(1))
    }
}

proof fn lemma_first_label(have: Seq<Seq<char>>, add: Seq<Seq<char>>)
    requires
        add.len() > 0,
    ensures
        with_labels(have, add) == with_labels(
            if have.contains(add[0]) {
                have
            } else {
                have.push(add[0])
            },
            add.skip(1),
        ),
    decreases add.len(),
{
    let next = if have.contains(add[0]) {
        have
    } else {
        have.push(add[0])
    };
    if add.len() == 1 {
        assert(add.drop_last().len() == 0);
        assert(add.skip(1).len() == 0);
        assert(with_labels(have, add.drop_last()) == have);
    } else {
        lemma_first_label(have, add.drop_last());
        assert(add.drop_last().skip(1) =~= add.skip(1).drop_last());
        assert(add.drop_last()[0] == add[0]);
        assert(add.skip(1).last() == add.last());
    }
}

/// Adding labels puts those that are new behind those that are there.
pub proof fn lemma_new_labels(have: Seq<Seq<char>>, add: Seq<Seq<char>>)
    ensures
        with_labels(have, add) == have + new_labels(have, add),
    decreases add.len(),
{
    if add.len() == 0 {
        assert(have + new_labels(have, add) =~= have);
    } else {
        lemma_first_label(have, add);
        if have.contains(add[0]) {
            lemma_new_labels(have, add.skip(1));
        } else {
            lemma_new_labels(have.push(add[0]), add.skip(1));
            assert(have.push(add[0]) + new_labels(have.push(add[0]), add.skip(1)) =~= have
                + new_labels(have, add));
        }
    }
}

/// The tags that a patch of labels starts from: its own labels, where it has that array, or else
/// those of the task.
pub open spec fn labels_before(task: Json, patch: Json) -> Seq<Seq<char>> {
    match patch.field("labels"@) {
        Some(Json::Array(_)) => words(patch.field("labels"@)),
        _ => words(task.field("tags"@)),
    }
}

/// The tags after a patch whose custom block does not name them are those that its labels make.
proof fn lemma_patched_tags(task: Json, patch: Json, now: Seq<char>)
    requires
        task is Object,
        patch.nested("custom"@, "tags"@) is None,
    ensures
        patched(task, patch, now).field("tags"@) == labels_patched(task, patch).field("tags"@),
{
    lemma_names();
    lemma_before_custom(task, patch, now);
    let before = before_custom(task, patch, now);
    lemma_custom_frame(before, patch, "tags"@);
    lemma_flat_frame(custom_patched(before, patch), patch, "tags"@);
    lemma_status_frame(task, patch, now, "tags"@);
    let moved = status_patched(task, patch, now);
    let ranked = priority_patched(moved, patch);
    assert(ranked.field("tags"@) == task.field("tags"@));
    assert(strings_at(ranked, "tags"@) == strings_at(task, "tags"@));
}

/// A patch that removes or adds labels, whichever of the two it says, leaves the labels that it
/// does not remove, in their order, and then those that it adds and that are not there yet. A
/// removed label is gone, unless it is added too. Only a custom block that names the tags says
/// otherwise.
pub proof fn patches_remove_and_add_labels(task: Json, patch: Json, now: Seq<char>)
    requires
        task is Object,
        patch.nested("custom"@, "tags"@) is None,
        words(patch.field("labels_add"@)).len() > 0 || words(patch.field("labels_remove"@)).len()
            > 0,
    ensures
        ({
            let add = words(patch.field("labels_add"@));
            let remove = words(patch.field("labels_remove"@));
            let before = labels_before(task, patch);
            let kept = before.filter(|l: Seq<char>| !remove.contains(l));
            let tags = kept + new_labels(kept, add);
            &&& patched(task, patch, now).field("tags"@) == Some(array_of(tags))
            &&& forall|l: Seq<char>| #[trigger]
                tags.contains(l) == (add.contains(l) || (before.contains(l) && !remove.contains(l)))
            &&& forall|l: Seq<char>|
                remove.contains(l) && !add.contains(l) ==> !(#[trigger] tags.contains(l))
        }),
{
    lemma_names();
    let add = words(patch.field("labels_add"@));
    let remove = words(patch.field("labels_remove"@));
    let before = labels_before(task, patch);
    let kept = before.filter(|l: Seq<char>| !remove.contains(l));
    strings_of_a_member_are_read(patch, "labels_add"@);
    strings_of_a_member_are_read(patch, "labels_remove"@);
    strings_of_a_member_are_read(task, "tags"@);
    lemma_patched_tags(task, patch, now);
    if let Some(Json::Array(items)) = patch.field("labels"@) {
        strings_are_read_in_order(items);
        let replaced = task.with("tags"@, json_strings(strings_among(items)));
        strings_of_a_member_are_read(replaced, "tags"@);
        lemma_words_of_array(strings_among(items));
        strings_are_written_in_order(strings_among(items));
    }
    lemma_new_labels(kept, add);
    labels_are_removed_and_added(before, remove, add);
    strings_are_written_in_order(relabelled(before, remove, add));
    assert(labels_patched(task, patch).field("tags"@) == Some(
        json_strings(relabelled(before, remove, add)),
    ));
}

proof fn lemma_words_of_array(strings: Seq<Seq<char>>)
    ensures
        words(Some(array_of(strings))) == strings,
    decreases strings.len(),
{
    let items = array_of(strings)->Array_0;
    if strings.len() > 0 {
        lemma_words_of_array(strings.skip(1));
        assert(items.skip(1) =~= array_of(strings.skip(1))->Array_0);
        assert(seq![strings[0]] + strings.skip(1) =~= strings);
    } else {
        assert(strings =~= Seq::empty());
    }
}

/// A patch that says labels, and neither adds nor removes any, makes them the tags; one that says
/// nothing of labels leaves the tags as they are.
pub proof fn patches_replace_labels(task: Json, patch: Json, now: Seq<char>)
    requires
        task is Object,
        patch.nested("custom"@, "tags"@) is None,
        words(patch.field("labels_add"@)).len() == 0,
        words(patch.field("labels_remove"@)).len() == 0,
    ensures
        patched(task, patch, now).field("tags"@) == (match patch.field("labels"@) {
            Some(Json::Array(items)) => Some(array_of(words_of(items))),
            _ => task.field("tags"@),
        }),
{
    lemma_names();
    strings_of_a_member_are_read(patch, "labels_add"@);
    strings_of_a_member_are_read(patch, "labels_remove"@);
    lemma_patched_tags(task, patch, now);
    if let Some(Json::Array(items)) = patch.field("labels"@) {
        strings_are_read_in_order(items);
        strings_are_written_in_order(strings_among(items));
    }
}

} // verus!
