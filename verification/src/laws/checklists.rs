//! Checklists.
use crate::laws::names::lemma_names;
use crate::methods::change::{first_with, new_item, with_checklist_item, with_marked_item};
use crate::text::{zero_padded, zero_padded_is_a_numeral};
use crate::value::{or_else, Json};
use vstd::prelude::*;

verus! {

/// The items of a task's checklist, which may be missing.
pub open spec fn checklist_of(task: Json) -> Option<Seq<Json>> {
    or_else(task.field("checklist"@), Json::Array(Seq::empty())).as_array()
}

/// The id of the item with a number.
pub open spec fn item_id(number: nat) -> Seq<char> {
    "CL-"@ + zero_padded(number, 3)
}

/// A checklist whose items have the ids `CL-001`, `CL-002` and so on.
pub open spec fn numbered(items: Seq<Json>) -> bool {
    forall|i: int| 0 <= i < items.len() ==> (#[trigger] items[i]).text("id"@) == Some(
        item_id((i + 1) as nat),
    )
}

/// The first item with a text has it, and none before it does; where there is none, no item has
/// it.
pub proof fn lemma_first_with(items: Seq<Json>, key: Seq<char>, text: Seq<char>)
    ensures
        match first_with(items, key, text) {
            Some(i) => {
                &&& 0 <= i < items.len()
                &&& items[i].text(key) == Some(text)
                &&& forall|j: int| 0 <= j < i ==> (#[trigger] items[j]).text(key) != Some(text)
            },
            None => forall|j: int|
                0 <= j < items.len() ==> (#[trigger] items[j]).text(key) != Some(text),
        },
    decreases items.len(),
{
    if items.len() > 0 {
        let rest = items.drop_last();
        lemma_first_with(rest, key, text);
        assert(forall|j: int| 0 <= j < rest.len() ==> rest[j] == #[trigger] items[j]);
    }
}

/// Two numbers do not share an id.
pub proof fn item_ids_differ(a: nat, b: nat)
    requires
        item_id(a) == item_id(b),
    ensures
        a == b,
{
    zero_padded_is_a_numeral(a, 3);
    zero_padded_is_a_numeral(b, 3);
    let head = "CL-"@.len() as int;
    assert(item_id(a).skip(head) == zero_padded(a, 3));
    assert(item_id(b).skip(head) == zero_padded(b, 3));
}

/// A new item comes to the end of the checklist, under the number of its place and not yet
/// completed. The other items and the other fields of the task stay.
pub proof fn items_are_added_at_the_end(task: Json, description: Seq<char>, now: Seq<char>)
    requires
        task is Object,
        checklist_of(task) is Some,
    ensures
        match with_checklist_item(task, description, now) {
            Ok(changed) => {
                let items = checklist_of(task)->0;
                &&& checklist_of(changed) == Some(
                    items.push(new_item(items.len() + 1, description, now)),
                )
                &&& forall|key: Seq<char>|
                    key != "checklist"@ ==> #[trigger] changed.field(key) == task.field(key)
            },
            Err(_) => false,
        },
        new_item((checklist_of(task)->0).len() + 1, description, now).text("id"@) == Some(
            item_id((checklist_of(task)->0).len() + 1),
        ),
        new_item((checklist_of(task)->0).len() + 1, description, now).flag("completed"@) == Some(
            false,
        ),
        new_item((checklist_of(task)->0).len() + 1, description, now).text("description"@) == Some(
            description,
        ),
{
    lemma_names();
}

/// Marking changes the flag and the date of the first item with the id, and nothing else.
pub proof fn marking_touches_one_item(
    task: Json,
    id: Seq<char>,
    completed: bool,
    now: Seq<char>,
)
    requires
        task.items("checklist"@) is Some,
        first_with(task.items("checklist"@)->0, "id"@, id) is Some,
    ensures
        match with_marked_item(task, id, completed, now) {
            Ok(changed) => {
                let items = task.items("checklist"@)->0;
                let at = first_with(items, "id"@, id)->0;
                &&& changed.items("checklist"@) matches Some(marked)
                &&& marked.len() == items.len()
                &&& forall|j: int| 0 <= j < items.len() && j != at ==> #[trigger] marked[j] == items[j]
                &&& marked[at].flag("completed"@) == Some(completed)
                &&& marked[at].text("updated_at"@) == Some(now)
                &&& forall|key: Seq<char>|
                    key != "completed"@ && key != "updated_at"@ ==> #[trigger] marked[at].field(key)
                        == items[at].field(key)
                &&& forall|key: Seq<char>|
                    key != "checklist"@ ==> #[trigger] changed.field(key) == task.field(key)
            },
            Err(_) => false,
        },
{
    lemma_names();
    lemma_first_with(task.items("checklist"@)->0, "id"@, id);
}

/// The checklist of a new task is numbered, and it stays so as items are added and marked.
pub proof fn checklists_stay_numbered(
    task: Json,
    description: Seq<char>,
    id: Seq<char>,
    completed: bool,
    now: Seq<char>,
)
    requires
        task is Object,
        checklist_of(task) matches Some(items) && numbered(items),
    ensures
        numbered(Seq::empty()),
        with_checklist_item(task, description, now) matches Ok(changed) && checklist_of(
            changed,
        ) matches Some(items) && numbered(items),
        with_marked_item(task, id, completed, now) matches Ok(changed) ==> (checklist_of(
            changed,
        ) matches Some(items) && numbered(items)),
{
    lemma_names();
    items_are_added_at_the_end(task, description, now);
    if with_marked_item(task, id, completed, now) is Ok {
        marking_touches_one_item(task, id, completed, now);
        let items = task.items("checklist"@)->0;
        let at = first_with(items, "id"@, id)->0;
        lemma_first_with(items, "id"@, id);
        let marked = checklist_of(with_marked_item(task, id, completed, now)->Ok_0)->0;
        assert forall|i: int| 0 <= i < marked.len() implies (#[trigger] marked[i]).text("id"@)
            == Some(item_id((i + 1) as nat)) by {
            assert(items[i].text("id"@) == Some(item_id((i + 1) as nat)));
            if i == at {
                assert(marked[at].field("id"@) == items[at].field("id"@));
            }
        }
    }
}

/// In a numbered checklist an id leads to the item of that number, and to no other.
pub proof fn numbered_items_are_found(items: Seq<Json>, number: nat)
    requires
        numbered(items),
    ensures
        1 <= number <= items.len() ==> first_with(items, "id"@, item_id(number)) == Some(
            number - 1,
        ),
        number > items.len() ==> first_with(items, "id"@, item_id(number)) is None,
{
    let id = item_id(number);
    lemma_first_with(items, "id"@, id);
    match first_with(items, "id"@, id) {
        Some(i) => {
            item_ids_differ(number, (i + 1) as nat);
        },
        None => {
            if 1 <= number <= items.len() {
                assert(items[number - 1].text("id"@) == Some(id));
            }
        },
    }
}

/// An item that was just added can be marked by the id of its place, and is then completed.
pub proof fn added_items_can_be_marked(
    task: Json,
    description: Seq<char>,
    added: Seq<char>,
    marked: Seq<char>,
)
    requires
        task is Object,
        checklist_of(task) matches Some(items) && numbered(items),
    ensures
        with_checklist_item(task, description, added) matches Ok(longer) && with_marked_item(
            longer,
            item_id((checklist_of(task)->0).len() + 1),
            true,
            marked,
        ) matches Ok(done) && done.items("checklist"@) matches Some(items) && items.len() == (
        checklist_of(task)->0).len() + 1 && items.last().flag("completed"@) == Some(true)
            && items.last().text("description"@) == Some(description),
{
    lemma_names();
    items_are_added_at_the_end(task, description, added);
    let before = checklist_of(task)->0;
    let longer = with_checklist_item(task, description, added)->Ok_0;
    checklists_stay_numbered(task, description, item_id(0), true, added);
    numbered_items_are_found(checklist_of(longer)->0, before.len() + 1);
    let id = item_id(before.len() + 1);
    marking_touches_one_item(longer, id, true, marked);
    let done = with_marked_item(longer, id, true, marked)->Ok_0;
    let items = done.items("checklist"@)->0;
    assert(items.last().field("description"@) == (checklist_of(longer)->0).last().field(
        "description"@,
    ));
}

} // verus!
