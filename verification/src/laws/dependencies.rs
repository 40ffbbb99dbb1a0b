//! Dependencies.
use crate::laws::checklists::lemma_first_with;
use crate::laws::names::lemma_names;
use crate::laws::sequences::lemma_filter;
use crate::methods::change::{
    first_with, new_dependency, other_dependencies, with_dependency, without_dependency,
};
use crate::methods::kind::{bare_id, bare_of_wire, wire_id};
use crate::value::{or_else, Json};
use vstd::prelude::*;

verus! {

/// The dependencies of a task, which may be missing.
pub open spec fn dependencies_of(task: Json) -> Option<Seq<Json>> {
    or_else(task.field("dependencies"@), Json::Array(Seq::empty())).as_array()
}

/// Whether a task depends on another one, which is named in either form of its id.
pub open spec fn depends_on(task: Json, other: Seq<char>) -> bool {
    dependencies_of(task) matches Some(items) && exists|i: int|
        0 <= i < items.len() && (#[trigger] items[i]).text("dependency_id"@) == Some(bare_id(other))
}

/// A dependency that was added is there. A new one comes to the end; one that the task has
/// already is not added again, whatever its type. The other fields stay.
pub proof fn dependencies_are_added_once(
    task: Json,
    other: Seq<char>,
    kind: Seq<char>,
    now: Seq<char>,
)
    requires
        task is Object,
        dependencies_of(task) is Some,
    ensures
        match with_dependency(task, other, kind, now) {
            Ok(changed) => {
                &&& depends_on(changed, other)
                &&& dependencies_of(changed) == Some(
                    if depends_on(task, other) {
                        dependencies_of(task)->0
                    } else {
                        (dependencies_of(task)->0).push(new_dependency(bare_id(other), kind, now))
                    },
                )
                &&& forall|key: Seq<char>|
                    key != "dependencies"@ ==> #[trigger] changed.field(key) == task.field(key)
            },
            Err(_) => false,
        },
{
    lemma_names();
    let items = dependencies_of(task)->0;
    let bare = bare_id(other);
    lemma_first_with(items, "dependency_id"@, bare);
    let changed = with_dependency(task, other, kind, now)->Ok_0;
    let after = dependencies_of(changed)->0;
    if first_with(items, "dependency_id"@, bare) is None {
        assert(after.last().text("dependency_id"@) == Some(bare));
        assert(after[after.len() - 1].text("dependency_id"@) == Some(bare));
    } else {
        let i = first_with(items, "dependency_id"@, bare)->0;
        assert(after[i].text("dependency_id"@) == Some(bare));
    }
}

/// Adding a dependency twice is adding it once.
pub proof fn adding_twice_is_adding_once(
    task: Json,
    other: Seq<char>,
    kind: Seq<char>,
    now: Seq<char>,
    other_kind: Seq<char>,
    later: Seq<char>,
)
    requires
        task is Object,
        dependencies_of(task) is Some,
    ensures
        with_dependency(task, other, kind, now) matches Ok(once) && with_dependency(
            once,
            other,
            other_kind,
            later,
        ) matches Ok(twice) && twice == once,
{
    dependencies_are_added_once(task, other, kind, now);
    let once = with_dependency(task, other, kind, now)->Ok_0;
    dependencies_are_added_once(once, other, other_kind, later);
    let twice = with_dependency(once, other, other_kind, later)->Ok_0;
    assert(twice->Object_0 =~= once->Object_0);
}

/// A dependency that was removed is gone; the others stay, in their order, and so do the other
/// fields.
pub proof fn removed_dependencies_are_gone(task: Json, other: Seq<char>)
    ensures
        !depends_on(without_dependency(task, other), other),
        task.items("dependencies"@) matches Some(items) ==> without_dependency(task, other).items(
            "dependencies"@,
        ) == Some(
            items.filter(|d: Json| d.text("dependency_id"@) != Some(bare_id(other))),
        ),
        forall|key: Seq<char>|
            key != "dependencies"@ ==> #[trigger] without_dependency(task, other).field(key)
                == task.field(key),
{
    let bare = bare_id(other);
    if let Some(items) = task.items("dependencies"@) {
        let stays = |d: Json| d.text("dependency_id"@) != Some(bare);
        lemma_filter(items, stays);
        let kept = other_dependencies(items, bare);
        assert(kept == items.filter(stays));
        assert forall|i: int| 0 <= i < kept.len() implies (#[trigger] kept[i]).text(
            "dependency_id"@,
        ) != Some(bare) by {
            assert(kept.contains(kept[i]));
        }
    }
}

proof fn lemma_nothing_to_remove(items: Seq<Json>, bare: Seq<char>)
    requires
        forall|i: int|
            0 <= i < items.len() ==> (#[trigger] items[i]).text("dependency_id"@) != Some(bare),
    ensures
        other_dependencies(items, bare) == items,
    decreases items.len(),
{
    reveal(Seq::filter);
    if items.len() > 0 {
        let rest = items.drop_last();
        assert forall|i: int| 0 <= i < rest.len() implies (#[trigger] rest[i]).text(
            "dependency_id"@,
        ) != Some(bare) by {
            assert(rest[i] == items[i]);
        }
        lemma_nothing_to_remove(rest, bare);
        assert(items.last() == items[items.len() - 1]);
        assert(items == rest.push(items.last()));
    }
}

/// Removing a dependency undoes adding it, where the task did not have it before.
pub proof fn removing_undoes_adding(task: Json, other: Seq<char>, kind: Seq<char>, now: Seq<char>)
    requires
        task is Object,
        dependencies_of(task) is Some,
        !depends_on(task, other),
    ensures
        with_dependency(task, other, kind, now) matches Ok(added) && dependencies_of(
            without_dependency(added, other),
        ) == dependencies_of(task),
{
    lemma_names();
    reveal(Seq::filter);
    dependencies_are_added_once(task, other, kind, now);
    let items = dependencies_of(task)->0;
    let bare = bare_id(other);
    let dependency = new_dependency(bare, kind, now);
    lemma_nothing_to_remove(items, bare);
    assert(items.push(dependency).drop_last() == items);
    assert(dependency.text("dependency_id"@) == Some(bare));
    assert(other_dependencies(items.push(dependency), bare) == items);
}

/// Either form of an id names the same dependency.
pub proof fn either_form_names_a_dependency(
    task: Json,
    other: Seq<char>,
    kind: Seq<char>,
    now: Seq<char>,
)
    ensures
        with_dependency(task, wire_id(other), kind, now) == with_dependency(task, other, kind, now),
        without_dependency(task, wire_id(other)) == without_dependency(task, other),
{
    bare_of_wire(other);
}

} // verus!
