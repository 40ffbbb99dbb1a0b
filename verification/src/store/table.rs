//! The task table as the steps of a request see it: for each id a payload.
use crate::methods::dispatch::{
    after_ids, after_task, after_write, first_step, listing_reply, StepModel, WriteModel,
};
use crate::rpc::Fault;
use crate::value::Json;
use vstd::prelude::*;

verus! {

/// Whether every row stands under the id of its payload.
pub open spec fn keyed(rows: Map<Seq<char>, Json>) -> bool {
    forall|id: Seq<char>| #[trigger]
        rows.contains_key(id) ==> rows[id].text("id"@) == Some(id)
}

/// Whether `ids` are the ids in use, each once.
pub open spec fn in_use(rows: Map<Seq<char>, Json>, ids: Seq<Seq<char>>) -> bool {
    &&& ids.no_duplicates()
    &&& forall|id: Seq<char>| #[trigger] ids.contains(id) == rows.contains_key(id)
}

/// What reading a task gives.
pub open spec fn read(rows: Map<Seq<char>, Json>, id: Seq<char>) -> Result<Json, Seq<char>> {
    if rows.contains_key(id) {
        Ok(rows[id])
    } else {
        Err("task not found: "@ + id)
    }
}

/// The rows after a write.
pub open spec fn written(rows: Map<Seq<char>, Json>, write: WriteModel) -> Map<Seq<char>, Json> {
    match write {
        WriteModel::Upsert { task, row, action } => rows.insert(row.id, task),
        WriteModel::Delete { id } => rows.remove(id),
    }
}

/// Whether a write deletes a row.
pub open spec fn removes(rows: Map<Seq<char>, Json>, write: WriteModel) -> bool {
    match write {
        WriteModel::Upsert { task, row, action } => false,
        WriteModel::Delete { id } => rows.contains_key(id),
    }
}

/// The rows after the last step of a request, and the reply.
pub open spec fn settled(rows: Map<Seq<char>, Json>, step: StepModel) -> (
    Map<Seq<char>, Json>,
    Result<Json, Fault>,
)
    recommends
        step is Reply || step is Write,
{
    match step {
        StepModel::Reply(reply) => (rows, reply),
        StepModel::Write(write) => (
            written(rows, write),
            after_write(write, Ok(removes(rows, write))),
        ),
        _ => arbitrary(),
    }
}

/// What a request depends on beside the rows: the ids in use in their order, the form of new ids
/// and the times at which it reads the clock.
pub struct Setting {
    pub ids: Seq<Seq<char>>,
    pub prefix: Seq<char>,
    pub pad: nat,
    pub patched_at: Seq<char>,
    pub now: Seq<char>,
}

/// The rows after a request that begins with `step`, and the reply, where the table answers every
/// question.
pub open spec fn answered(rows: Map<Seq<char>, Json>, step: StepModel, at: Setting) -> (
    Map<Seq<char>, Json>,
    Result<Json, Fault>,
) {
    match step {
        StepModel::ReadAll(listing) => (
            rows,
            listing_reply(listing, Ok(at.ids.map_values(|id: Seq<char>| rows[id]))),
        ),
        StepModel::ReadIds(draft) => settled(
            rows,
            after_ids(draft, Ok(at.ids), at.prefix, at.pad, at.now),
        ),
        StepModel::ReadTask { id, change } => settled(
            rows,
            after_task(id, change, read(rows, id), at.patched_at, at.now),
        ),
        _ => settled(rows, step),
    }
}

/// The rows after a request, and the reply; none for a method outside the task surface.
pub open spec fn request(
    rows: Map<Seq<char>, Json>,
    method: Seq<char>,
    params: Option<Json>,
    at: Setting,
) -> Option<(Map<Seq<char>, Json>, Result<Json, Fault>)> {
    match first_step(method, params) {
        Some(step) => Some(answered(rows, step, at)),
        None => None,
    }
}

} // verus!
