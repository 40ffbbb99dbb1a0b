//! The methods of the task surface.
use crate::laws::names::mark;
use crate::methods::change::ChangeModel;
use crate::methods::dispatch::{
    add_dependency_change, add_item_change, assign_change, change_step, create_step, delete_step,
    first_step, get_step, remove_dependency_change, replace_step, requested_id, requested_list,
    requested_patch, status_change, update_item_change, ListingModel, StepModel,
};
use crate::text::stripped;
use crate::value::Json;
use vstd::prelude::*;
use vstd::string::*;

verus! {

/// The verbs of the task surface.
pub open spec fn task_verbs() -> Seq<Seq<char>> {
    seq![
        "list"@,
        "list_filtered"@,
        "list_prioritized"@,
        "get"@,
        "create"@,
        "update"@,
        "replace"@,
        "delete"@,
        "statistics"@,
        "assign"@,
        "status"@,
        "next"@,
        "add_checklist_item"@,
        "update_checklist_item"@,
        "add_dependency"@,
        "remove_dependency"@,
    ]
}

/// The marks by which the verbs can be told apart.
proof fn lemma_verbs()
    ensures
        mark("list"@) == 116105004,
        mark("list_filtered"@) == 100105013,
        mark("list_prioritized"@) == 100105016,
        mark("get"@) == 116101003,
        mark("create"@) == 101114006,
        mark("update"@) == 101112006,
        mark("replace"@) == 101101007,
        mark("delete"@) == 101101006,
        mark("statistics"@) == 115116010,
        mark("assign"@) == 110115006,
        mark("status"@) == 115116006,
        mark("next"@) == 116101004,
        mark("add_checklist_item"@) == 109100018,
        mark("update_checklist_item"@) == 109112021,
        mark("add_dependency"@) == 121100014,
        mark("remove_dependency"@) == 121101017,
{
    reveal_strlit("list");
    reveal_strlit("list_filtered");
    reveal_strlit("list_prioritized");
    reveal_strlit("get");
    reveal_strlit("create");
    reveal_strlit("update");
    reveal_strlit("replace");
    reveal_strlit("delete");
    reveal_strlit("statistics");
    reveal_strlit("assign");
    reveal_strlit("status");
    reveal_strlit("next");
    reveal_strlit("add_checklist_item");
    reveal_strlit("update_checklist_item");
    reveal_strlit("add_dependency");
    reveal_strlit("remove_dependency");
}

/// A method is its prefix and its verb.
proof fn lemma_methods()
    ensures
        "task/list"@ == "task/"@ + "list"@,
        "task/list_filtered"@ == "task/"@ + "list_filtered"@,
        "task/list_prioritized"@ == "task/"@ + "list_prioritized"@,
        "task/get"@ == "task/"@ + "get"@,
        "task/create"@ == "task/"@ + "create"@,
        "task/update"@ == "task/"@ + "update"@,
        "task/replace"@ == "task/"@ + "replace"@,
        "task/delete"@ == "task/"@ + "delete"@,
        "task/statistics"@ == "task/"@ + "statistics"@,
        "task/assign"@ == "task/"@ + "assign"@,
        "task/status"@ == "task/"@ + "status"@,
        "task/next"@ == "task/"@ + "next"@,
        "task/add_checklist_item"@ == "task/"@ + "add_checklist_item"@,
        "task/update_checklist_item"@ == "task/"@ + "update_checklist_item"@,
        "task/add_dependency"@ == "task/"@ + "add_dependency"@,
        "task/remove_dependency"@ == "task/"@ + "remove_dependency"@,
{
    reveal_strlit("task/");
    reveal_strlit("list");
    reveal_strlit("task/list");
    assert("task/list"@ =~= "task/"@ + "list"@);
    reveal_strlit("list_filtered");
    reveal_strlit("task/list_filtered");
    assert("task/list_filtered"@ =~= "task/"@ + "list_filtered"@);
    reveal_strlit("list_prioritized");
    reveal_strlit("task/list_prioritized");
    assert("task/list_prioritized"@ =~= "task/"@ + "list_prioritized"@);
    reveal_strlit("get");
    reveal_strlit("task/get");
    assert("task/get"@ =~= "task/"@ + "get"@);
    reveal_strlit("create");
    reveal_strlit("task/create");
    assert("task/create"@ =~= "task/"@ + "create"@);
    reveal_strlit("update");
    reveal_strlit("task/update");
    assert("task/update"@ =~= "task/"@ + "update"@);
    reveal_strlit("replace");
    reveal_strlit("task/replace");
    assert("task/replace"@ =~= "task/"@ + "replace"@);
    reveal_strlit("delete");
    reveal_strlit("task/delete");
    assert("task/delete"@ =~= "task/"@ + "delete"@);
    reveal_strlit("statistics");
    reveal_strlit("task/statistics");
    assert("task/statistics"@ =~= "task/"@ + "statistics"@);
    reveal_strlit("assign");
    reveal_strlit("task/assign");
    assert("task/assign"@ =~= "task/"@ + "assign"@);
    reveal_strlit("status");
    reveal_strlit("task/status");
    assert("task/status"@ =~= "task/"@ + "status"@);
    reveal_strlit("next");
    reveal_strlit("task/next");
    assert("task/next"@ =~= "task/"@ + "next"@);
    reveal_strlit("add_checklist_item");
    reveal_strlit("task/add_checklist_item");
    assert("task/add_checklist_item"@ =~= "task/"@ + "add_checklist_item"@);
    reveal_strlit("update_checklist_item");
    reveal_strlit("task/update_checklist_item");
    assert("task/update_checklist_item"@ =~= "task/"@ + "update_checklist_item"@);
    reveal_strlit("add_dependency");
    reveal_strlit("task/add_dependency");
    assert("task/add_dependency"@ =~= "task/"@ + "add_dependency"@);
    reveal_strlit("remove_dependency");
    reveal_strlit("task/remove_dependency");
    assert("task/remove_dependency"@ =~= "task/"@ + "remove_dependency"@);
}

proof fn lemma_stripped(verb: Seq<char>)
    ensures
        stripped("task/"@ + verb, "task/"@) == Some(verb),
{
    let method = "task/"@ + verb;
    assert(method.subrange(0, "task/"@.len() as int) == "task/"@);
    assert(method.skip("task/"@.len() as int) == verb);
}

/// What each method of the task surface begins with.
pub proof fn each_method_has_its_step(params: Option<Json>)
    ensures
        first_step("task/list"@, params) == Some(
            StepModel::ReadAll(requested_list(params)),
        ),
        first_step("task/list_filtered"@, params) == Some(
            StepModel::ReadAll(requested_list(params)),
        ),
        first_step("task/list_prioritized"@, params) == Some(
            StepModel::ReadAll(ListingModel::Prioritized),
        ),
        first_step("task/get"@, params) == Some(
            get_step(params),
        ),
        first_step("task/create"@, params) == Some(
            create_step(params),
        ),
        first_step("task/update"@, params) == Some(
            change_step(
                requested_id(params),
                Ok(ChangeModel::Patch { patch: requested_patch(params) }),
            ),
        ),
        first_step("task/replace"@, params) == Some(
            replace_step(params),
        ),
        first_step("task/delete"@, params) == Some(
            delete_step(params),
        ),
        first_step("task/statistics"@, params) == Some(
            StepModel::ReadAll(ListingModel::Statistics),
        ),
        first_step("task/assign"@, params) == Some(
            change_step(requested_id(params), assign_change(params)),
        ),
        first_step("task/status"@, params) == Some(
            change_step(requested_id(params), status_change(params)),
        ),
        first_step("task/next"@, params) == Some(
            StepModel::ReadAll(ListingModel::Next),
        ),
        first_step("task/add_checklist_item"@, params) == Some(
            change_step(requested_id(params), add_item_change(params)),
        ),
        first_step("task/update_checklist_item"@, params) == Some(
            change_step(requested_id(params), update_item_change(params)),
        ),
        first_step("task/add_dependency"@, params) == Some(
            change_step(requested_id(params), add_dependency_change(params)),
        ),
        first_step("task/remove_dependency"@, params) == Some(
            change_step(requested_id(params), remove_dependency_change(params)),
        ),
{
    lemma_methods();
    lemma_verbs();
    lemma_stripped("list"@);
    lemma_stripped("list_filtered"@);
    lemma_stripped("list_prioritized"@);
    lemma_stripped("get"@);
    lemma_stripped("create"@);
    lemma_stripped("update"@);
    lemma_stripped("replace"@);
    lemma_stripped("delete"@);
    lemma_stripped("statistics"@);
    lemma_stripped("assign"@);
    lemma_stripped("status"@);
    lemma_stripped("next"@);
    lemma_stripped("add_checklist_item"@);
    lemma_stripped("update_checklist_item"@);
    lemma_stripped("add_dependency"@);
    lemma_stripped("remove_dependency"@);
}

/// A method is part of the task surface exactly where it is `task/` and one of the verbs.
pub proof fn task_surface_is_these_verbs(method: Seq<char>, params: Option<Json>)
    ensures
        first_step(method, params) is Some <==> exists|i: int|
            0 <= i < task_verbs().len() && method == "task/"@ + #[trigger] task_verbs()[i],
{
    let verbs = task_verbs();
    if first_step(method, params) is Some {
        let verb = stripped(method, "task/"@)->0;
        assert(method == "task/"@ + verb);
        assert(verbs[0] == "list"@);
        assert(verbs[1] == "list_filtered"@);
        assert(verbs[2] == "list_prioritized"@);
        assert(verbs[3] == "get"@);
        assert(verbs[4] == "create"@);
        assert(verbs[5] == "update"@);
        assert(verbs[6] == "replace"@);
        assert(verbs[7] == "delete"@);
        assert(verbs[8] == "statistics"@);
        assert(verbs[9] == "assign"@);
        assert(verbs[10] == "status"@);
        assert(verbs[11] == "next"@);
        assert(verbs[12] == "add_checklist_item"@);
        assert(verbs[13] == "update_checklist_item"@);
        assert(verbs[14] == "add_dependency"@);
        assert(verbs[15] == "remove_dependency"@);
    }
    if exists|i: int| 0 <= i < verbs.len() && method == "task/"@ + #[trigger] verbs[i] {
        let i = choose|i: int| 0 <= i < verbs.len() && method == "task/"@ + #[trigger] verbs[i];
        lemma_stripped(verbs[i]);
        lemma_verbs();
    }
}

/// `task/list_filtered` is `task/list` under another name.
pub proof fn filtered_listings_are_listings(params: Option<Json>)
    ensures
        first_step("task/list_filtered"@, params) == first_step("task/list"@, params),
{
    each_method_has_its_step(params);
}

} // verus!
