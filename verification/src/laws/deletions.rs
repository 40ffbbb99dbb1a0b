//! Deletions that come in as requests.
use crate::backend::{deletion_event, deletion_reply, BackendFault, ChangeKind};
use crate::methods::dispatch::{param_text, WriteModel};
use crate::methods::kind::bare_id;
use crate::methods::view::subject_of;
use crate::server::{id_missing, routed, RouteModel};
use crate::store::table::{read, removes, written};
use crate::value::Json;
use vstd::prelude::*;
use vstd::string::*;

verus! {

/// The methods that delete a subject.
pub open spec fn is_deletion(method: Seq<char>) -> bool {
    method == "task/delete"@ || method == "subject/delete"@
}

/// A deletion is routed by the id that it names, and is refused where it names none.
pub proof fn deletions_are_routed(method: Seq<char>, params: Option<Json>)
    requires
        is_deletion(method),
    ensures
        param_text(params, "id"@) matches Some(id) ==> routed(method, params)
            == RouteModel::Delete(Ok(id)),
        param_text(params, "id"@) is None ==> routed(method, params) == RouteModel::Delete(
            Err(id_missing("subject/delete"@)),
        ),
{
    reveal_strlit("task/delete");
    reveal_strlit("subject/delete");
    reveal_strlit("initialize");
    reveal_strlit("initialized");
    reveal_strlit("$/ping");
    reveal_strlit("$/");
    reveal_strlit("shutdown");
    reveal_strlit("health/check");
    assert("task/delete"@[0] == 't');
    assert("subject/delete"@[0] == 's' && "subject/delete"@.len() == 14);
    assert("initialized"@[0] == 'i' && "initialize"@[0] == 'i');
    assert("$/"@[0] == '$');
    assert("$/"@.is_prefix_of(method) ==> method[0] == "$/"@[0]);
}

/// What a request to delete a subject does to the table, replies and announces.
pub struct Deletion {
    pub rows: Map<Seq<char>, Json>,
    pub reply: Result<Json, BackendFault>,
    pub event: Option<(ChangeKind, Json)>,
}

/// The deletion of a subject on a table that answers every question: its task is read, its row is
/// deleted, and the outcome is replied and announced.
pub open spec fn deletion(rows: Map<Seq<char>, Json>, id: Seq<char>) -> Deletion {
    let write = WriteModel::Delete { id: bare_id(id) };
    let removed: Result<bool, Seq<char>> = Ok(removes(rows, write));
    Deletion {
        rows: written(rows, write),
        reply: deletion_reply(id, removed),
        event: deletion_event(id, read(rows, bare_id(id)), removed),
    }
}

/// A request to delete a subject that is there takes its row out and leaves every other one; the
/// reply is `{"ok": true}`, and one deletion is announced, with the subject as it last was.
/// Deleting it again finds nothing, and neither replies success nor announces anything.
pub proof fn deleted_subjects_are_gone(
    rows: Map<Seq<char>, Json>,
    method: Seq<char>,
    params: Option<Json>,
    id: Seq<char>,
)
    requires
        is_deletion(method),
        param_text(params, "id"@) == Some(id),
        rows.contains_key(bare_id(id)),
    ensures
        routed(method, params) == RouteModel::Delete(Ok(id)),
        deletion(rows, id).rows == rows.remove(bare_id(id)),
        !deletion(rows, id).rows.contains_key(bare_id(id)),
        forall|other: Seq<char>|
            other != bare_id(id) && #[trigger] rows.contains_key(other) ==> {
                &&& deletion(rows, id).rows.contains_key(other)
                &&& deletion(rows, id).rows[other] == rows[other]
            },
        deletion(rows, id).reply == Ok::<Json, BackendFault>(
            Json::Object(map!["ok"@ => Json::Bool(true)]),
        ),
        deletion(rows, id).event == Some((ChangeKind::Deleted, subject_of(rows[bare_id(id)]))),
        deletion(deletion(rows, id).rows, id).rows == deletion(rows, id).rows,
        deletion(deletion(rows, id).rows, id).reply == Err::<Json, BackendFault>(
            BackendFault::NotFound(id),
        ),
        deletion(deletion(rows, id).rows, id).event is None,
{
    deletions_are_routed(method, params);
    assert(rows.remove(bare_id(id)).remove(bare_id(id)) =~= rows.remove(bare_id(id)));
}

/// A request to delete a subject that is not there changes nothing and is refused.
pub proof fn missing_subjects_are_not_deleted(
    rows: Map<Seq<char>, Json>,
    method: Seq<char>,
    params: Option<Json>,
    id: Seq<char>,
)
    requires
        is_deletion(method),
        param_text(params, "id"@) == Some(id),
        !rows.contains_key(bare_id(id)),
    ensures
        routed(method, params) == RouteModel::Delete(Ok(id)),
        deletion(rows, id).rows == rows,
        deletion(rows, id).reply == Err::<Json, BackendFault>(BackendFault::NotFound(id)),
        deletion(rows, id).event is None,
{
    deletions_are_routed(method, params);
    assert(rows.remove(bare_id(id)) =~= rows);
}

} // verus!
