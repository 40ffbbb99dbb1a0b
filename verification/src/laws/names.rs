//! Facts about the names of members: which of them differ.
use vstd::prelude::*;
use vstd::string::*;

verus! {

/// A number by which the names in use can be told apart: from the length, the second and the last
/// character.
pub open spec fn mark(name: Seq<char>) -> int {
    name.len() + 1000 * (name[1] as int) + 1000000 * (name.last() as int)
}

/// The marks of the names in use.
pub proof fn lemma_names()
    ensures
        mark("id"@) == 100100002,
        mark("title"@) == 101105005,
        mark("description"@) == 110101011,
        mark("status"@) == 115116006,
        mark("priority"@) == 121114008,
        mark("task_type"@) == 101097009,
        mark("scope"@) == 101099005,
        mark("risk"@) == 107105004,
        mark("tags"@) == 115097004,
        mark("linked_requirements"@) == 115105019,
        mark("linked_architecture_entities"@) == 115105028,
        mark("checklist"@) == 116104009,
        mark("dependencies"@) == 115101012,
        mark("assignee"@) == 101115008,
        mark("paused"@) == 100097006,
        mark("cancelled"@) == 100097009,
        mark("blocked_at"@) == 116108010,
        mark("blocked_reason"@) == 110108014,
        mark("blocked_by"@) == 121108010,
        mark("deadline"@) == 101101008,
        mark("metadata"@) == 97101008,
        mark("created_at"@) == 116114010,
        mark("updated_at"@) == 116112010,
        mark("created_by"@) == 121114010,
        mark("updated_by"@) == 121112010,
        mark("completed_at"@) == 116111012,
        mark("kind"@) == 100105004,
        mark("native_status"@) == 115097013,
        mark("labels"@) == 115097006,
        mark("custom"@) == 109117006,
        mark("type"@) == 101121004,
        mark("raw_status"@) == 115097010,
        mark("body"@) == 121111004,
        mark("labels_add"@) == 100097010,
        mark("labels_remove"@) == 101097013,
        mark("ready"@) == 121101005,
        mark("in-progress"@) == 115110011,
        mark("in_progress"@) == 115110011,
        mark("blocked"@) == 100108007,
        mark("done"@) == 101111004,
        mark("completed"@) == 100111009,
        mark("backlog"@) == 103097007,
        mark("deleted"@) == 100101007,
        mark("dependency_id"@) == 100101013,
        mark("dependency_type"@) == 101101015,
        mark("added_at"@) == 116100008,
        mark("item_id"@) == 100116007,
        mark("patch"@) == 104097005,
        mark("task"@) == 107097004,
        mark("limit"@) == 116105005,
        mark("total"@) == 108111005,
        mark("by_status"@) == 115121009,
        mark("by_priority"@) == 121121011,
        mark("comment"@) == 116111007,
        mark("subjects"@) == 115117008,
        mark("next_cursor"@) == 114101011,
        mark("filter"@) == 114105006,
        mark("event"@) == 116118005,
        mark("ok"@) == 107107002,
        mark("method"@) == 100101006,
        mark("jsonrpc"@) == 99115007,
        mark("name"@) == 101097004,
        mark("version"@) == 110101007,
        mark("plugin_kind"@) == 100108011,
        mark("protocol_version"@) == 110114016,
        mark("capabilities"@) == 115097012,
        mark("env_required"@) == 100110012,
        mark("required"@) == 100101008,
        mark("category"@) == 121097008,
{
    reveal_strlit("id");
    reveal_strlit("title");
    reveal_strlit("description");
    reveal_strlit("status");
    reveal_strlit("priority");
    reveal_strlit("task_type");
    reveal_strlit("scope");
    reveal_strlit("risk");
    reveal_strlit("tags");
    reveal_strlit("linked_requirements");
    reveal_strlit("linked_architecture_entities");
    reveal_strlit("checklist");
    reveal_strlit("dependencies");
    reveal_strlit("assignee");
    reveal_strlit("paused");
    reveal_strlit("cancelled");
    reveal_strlit("blocked_at");
    reveal_strlit("blocked_reason");
    reveal_strlit("blocked_by");
    reveal_strlit("deadline");
    reveal_strlit("metadata");
    reveal_strlit("created_at");
    reveal_strlit("updated_at");
    reveal_strlit("created_by");
    reveal_strlit("updated_by");
    reveal_strlit("completed_at");
    reveal_strlit("kind");
    reveal_strlit("native_status");
    reveal_strlit("labels");
    reveal_strlit("custom");
    reveal_strlit("type");
    reveal_strlit("raw_status");
    reveal_strlit("body");
    reveal_strlit("labels_add");
    reveal_strlit("labels_remove");
    reveal_strlit("ready");
    reveal_strlit("in-progress");
    reveal_strlit("in_progress");
    reveal_strlit("blocked");
    reveal_strlit("done");
    reveal_strlit("completed");
    reveal_strlit("backlog");
    reveal_strlit("deleted");
    reveal_strlit("dependency_id");
    reveal_strlit("dependency_type");
    reveal_strlit("added_at");
    reveal_strlit("item_id");
    reveal_strlit("patch");
    reveal_strlit("task");
    reveal_strlit("limit");
    reveal_strlit("total");
    reveal_strlit("by_status");
    reveal_strlit("by_priority");
    reveal_strlit("comment");
    reveal_strlit("subjects");
    reveal_strlit("next_cursor");
    reveal_strlit("filter");
    reveal_strlit("event");
    reveal_strlit("ok");
    reveal_strlit("method");
    reveal_strlit("jsonrpc");
    reveal_strlit("name");
    reveal_strlit("version");
    reveal_strlit("plugin_kind");
    reveal_strlit("protocol_version");
    reveal_strlit("capabilities");
    reveal_strlit("env_required");
    reveal_strlit("required");
    reveal_strlit("category");
}

} // verus!
