//! Wire ids (`task:TASK-001`) and bare ids (`TASK-001`).
use crate::text::{joined, starts_with, strip_prefix, stripped};
use vstd::prelude::*;

verus! {

/// The subject kind of tasks.
pub const TASK_KIND: &'static str = "task";

/// The wire id of an id in either form.
pub open spec fn wire_id(id: Seq<char>) -> Seq<char> {
    if "task:"@.is_prefix_of(id) {
        id
    } else {
        "task:"@ + id
    }
}

/// The bare id of an id in either form.
pub open spec fn bare_id(id: Seq<char>) -> Seq<char> {
    match stripped(id, "task:"@) {
        Some(bare) => bare,
        None => id,
    }
}

/// Builds the wire id (`task:TASK-001`) from a bare id (`TASK-001`).
pub fn add_kind_prefix(bare: &str) -> (wire: String)
    ensures
        wire@ == wire_id(bare@),
{
    if starts_with(bare, "task:") {
        bare.to_string()
    } else {
        joined("task:", bare)
    }
}

/// Strips the `task:` prefix from a wire id. An id without the prefix is returned unchanged, so
/// that either form can be passed.
pub fn strip_kind_prefix(wire: &str) -> (bare: String)
    ensures
        bare@ == bare_id(wire@),
{
    match strip_prefix(wire, "task:") {
        Some(bare) => bare.to_string(),
        None => wire.to_string(),
    }
}

/// A wire id is its own wire id.
pub proof fn wire_id_is_idempotent(id: Seq<char>)
    ensures
        wire_id(wire_id(id)) == wire_id(id),
{
    assert(("task:"@ + id).subrange(0, "task:"@.len() as int) == "task:"@);
}

/// The wire id of the bare id is the wire id, for an id whose bare form has no second prefix.
pub proof fn wire_of_bare(id: Seq<char>)
    requires
        !"task:"@.is_prefix_of(bare_id(id)),
    ensures
        wire_id(bare_id(id)) == wire_id(id),
{
    if "task:"@.is_prefix_of(id) {
        assert("task:"@ + id.skip("task:"@.len() as int) == id);
    }
}

/// The bare id of the wire id is the bare id.
pub proof fn bare_of_wire(id: Seq<char>)
    ensures
        bare_id(wire_id(id)) == bare_id(id),
{
    let wire = "task:"@ + id;
    assert(wire.subrange(0, "task:"@.len() as int) == "task:"@);
    assert(wire.skip("task:"@.len() as int) == id);
}

} // verus!
