//! What the requests over all tasks answer, told from the tasks and the parameters.
use crate::laws::listings::next_task_is_the_first_of_the_highest;
use crate::laws::methods::each_method_has_its_step;
use crate::laws::names::lemma_names;
use crate::methods::listing::{
    from_rank, is_open, limited, next_task, occurrences, of_rank, of_status, open_tasks, priorities,
    prioritized, rank, statistics_of, statuses, subjects_of,
};
use crate::methods::view::subject_of;
use crate::rpc::Fault;
use crate::store::table::{request, Setting};
use crate::value::{Json, JsonNumber};
use vstd::prelude::*;
use vstd::string::*;

verus! {

/// The status that a task says, which is `backlog` where it says none.
pub open spec fn own_status(task: Json) -> Seq<char> {
    match task.field("status"@) {
        Some(Json::String(status)) => status,
        _ => "backlog"@,
    }
}

/// The priority that a task says, which is `medium` where it says none.
pub open spec fn own_priority(task: Json) -> Seq<char> {
    match task.field("priority"@) {
        Some(Json::String(priority)) => priority,
        _ => "medium"@,
    }
}

/// How urgent a task is: critical before high, medium and low, and any other priority last.
pub open spec fn urgency(task: Json) -> int {
    if own_priority(task) == "critical"@ {
        4
    } else if own_priority(task) == "high"@ {
        3
    } else if own_priority(task) == "medium"@ {
        2
    } else if own_priority(task) == "low"@ {
        1
    } else {
        0
    }
}

/// Tasks are ranked by their urgency.
pub proof fn rank_is_urgency(task: Json)
    ensures
        rank(task) == urgency(task),
{
}

/// The tasks that a request sees, in their order.
pub open spec fn tasks_in_order(rows: Map<Seq<char>, Json>, at: Setting) -> Seq<Json> {
    at.ids.map_values(|id: Seq<char>| rows[id])
}

/// Whether a task says that it is `ready`, in the `backlog` or `in-progress`.
pub open spec fn can_be_picked(task: Json) -> bool {
    ||| task.field("status"@) == Some(Json::String("ready"@))
    ||| task.field("status"@) == Some(Json::String("backlog"@))
    ||| task.field("status"@) == Some(Json::String("in-progress"@))
}

proof fn lemma_can_be_picked(task: Json)
    ensures
        is_open(task) == can_be_picked(task),
{
}

/// The place of the first item that passes.
proof fn lemma_first_place(s: Seq<Json>, pass: spec_fn(Json) -> bool) -> (place: int)
    requires
        s.filter(pass).len() > 0,
    ensures
        0 <= place < s.len(),
        s[place] == s.filter(pass)[0],
        pass(s[place]),
        forall|j: int| 0 <= j < place ==> !pass(#[trigger] s[j]),
    decreases s.len(),
{
    reveal(Seq::filter);
    let rest = s.drop_last();
    if rest.filter(pass).len() > 0 {
        let place = lemma_first_place(rest, pass);
        assert forall|j: int| 0 <= j < place implies !pass(#[trigger] s[j]) by {
            assert(rest[j] == s[j]);
        }
        place
    } else {
        lemma_none_pass(rest, pass);
        assert forall|j: int| 0 <= j < s.len() - 1 implies !pass(#[trigger] s[j]) by {
            assert(rest[j] == s[j]);
        }
        s.len() - 1
    }
}

proof fn lemma_none_pass(s: Seq<Json>, pass: spec_fn(Json) -> bool)
    requires
        s.filter(pass).len() == 0,
    ensures
        forall|j: int| 0 <= j < s.len() ==> !pass(#[trigger] s[j]),
    decreases s.len(),
{
    reveal(Seq::filter);
    if s.len() > 0 {
        let rest = s.drop_last();
        lemma_none_pass(rest, pass);
        assert forall|j: int| 0 <= j < s.len() implies !pass(#[trigger] s[j]) by {
            if j < rest.len() {
                assert(rest[j] == s[j]);
            }
        }
    }
}

proof fn lemma_open_of_rank(tasks: Seq<Json>, r: int)
    ensures
        of_rank(open_tasks(tasks), r) == tasks.filter(|t: Json| is_open(t) && rank(t) == r),
    decreases tasks.len(),
{
    reveal(Seq::filter);
    if tasks.len() > 0 {
        lemma_open_of_rank(tasks.drop_last(), r);
        let before = open_tasks(tasks.drop_last());
        if is_open(tasks.last()) {
            assert(before.push(tasks.last()).drop_last() == before);
        }
    } else {
        assert(open_tasks(tasks).len() == 0);
    }
}

/// `task/next` shows a task that is `ready`, in the `backlog` or `in-progress`, and null exactly
/// where no task is. No other such task is more urgent, and none that is as urgent comes before.
/// The place of the task is what this function gives.
pub proof fn next_is_the_most_urgent_task(
    rows: Map<Seq<char>, Json>,
    params: Option<Json>,
    at: Setting,
) -> (place: int)
    ensures
        ({
            let tasks = tasks_in_order(rows, at);
            let outcome = request(rows, "task/next"@, params, at);
            let none = forall|i: int| 0 <= i < tasks.len() ==> !can_be_picked(#[trigger] tasks[i]);
            &&& none ==> outcome == Some((rows, Ok::<Json, Fault>(Json::Null)))
            &&& !none ==> {
                &&& 0 <= place < tasks.len()
                &&& can_be_picked(tasks[place])
                &&& outcome == Some((rows, Ok::<Json, Fault>(subject_of(tasks[place]))))
                &&& subject_of(tasks[place]) != Json::Null
                &&& forall|i: int|
                    0 <= i < tasks.len() && can_be_picked(#[trigger] tasks[i]) ==> urgency(tasks[i])
                        <= urgency(tasks[place])
                &&& forall|i: int|
                    0 <= i < place && can_be_picked(#[trigger] tasks[i]) ==> urgency(tasks[i])
                        < urgency(tasks[place])
            }
        }),
{
    let tasks = tasks_in_order(rows, at);
    each_method_has_its_step(params);
    next_task_is_the_first_of_the_highest(tasks);
    assert forall|i: int| 0 <= i < tasks.len() implies is_open(#[trigger] tasks[i])
        == can_be_picked(tasks[i]) && rank(tasks[i]) == urgency(tasks[i]) by {
        lemma_can_be_picked(tasks[i]);
        rank_is_urgency(tasks[i]);
    }
    if let Some(task) = next_task(tasks) {
        let r = rank(task);
        let pass = |t: Json| is_open(t) && rank(t) == r;
        lemma_open_of_rank(tasks, r);
        assert(of_rank(open_tasks(tasks), r) == tasks.filter(pass));
        let place = lemma_first_place(tasks, pass);
        assert forall|i: int| 0 <= i < place && can_be_picked(#[trigger] tasks[i]) implies urgency(
            tasks[i],
        ) < urgency(tasks[place]) by {
            assert(!pass(tasks[i]));
        }
        assert(tasks[place] == task);
        place
    } else {
        0
    }
}

/// How many tasks are in one of some statuses.
pub open spec fn tasks_in(tasks: Seq<Json>, names: Set<Seq<char>>) -> nat
    decreases tasks.len(),
{
    if tasks.len() == 0 {
        0
    } else {
        tasks_in(tasks.skip(1), names) + (if names.contains(own_status(tasks[0])) {
            1nat
        } else {
            0nat
        })
    }
}

/// How many tasks have a priority.
pub open spec fn tasks_of(tasks: Seq<Json>, priority: Seq<char>) -> nat
    decreases tasks.len(),
{
    if tasks.len() == 0 {
        0
    } else {
        tasks_of(tasks.skip(1), priority) + (if own_priority(tasks[0]) == priority {
            1nat
        } else {
            0nat
        })
    }
}

/// A whole number as a document.
pub open spec fn number(n: nat) -> Json {
    Json::Number(JsonNumber::PosInt(n as u64))
}

proof fn lemma_first_word(words: Seq<Seq<char>>, word: Seq<char>)
    requires
        words.len() > 0,
    ensures
        occurrences(words, word) == occurrences(words.skip(1), word) + (if words[0] == word {
            1nat
        } else {
            0nat
        }),
    decreases words.len(),
{
    reveal(Seq::filter);
    let rest = words.drop_last();
    if words.len() == 1 {
        assert(occurrences(rest, word) == 0);
        assert(occurrences(words.skip(1), word) == 0);
        assert(words.last() == words[0]);
    } else {
        lemma_first_word(rest, word);
        assert(rest.skip(1) =~= words.skip(1).drop_last());
        assert(words.skip(1).last() == words.last());
        assert(rest[0] == words[0]);
    }
}

proof fn lemma_one_status(tasks: Seq<Json>, word: Seq<char>)
    ensures
        occurrences(statuses(tasks), word) == tasks_in(tasks, set![word]),
        occurrences(priorities(tasks), word) == tasks_of(tasks, word),
    decreases tasks.len(),
{
    reveal(Seq::filter);
    if tasks.len() > 0 {
        lemma_one_status(tasks.skip(1), word);
        lemma_first_word(statuses(tasks), word);
        lemma_first_word(priorities(tasks), word);
        assert(statuses(tasks).skip(1) =~= statuses(tasks.skip(1)));
        assert(priorities(tasks).skip(1) =~= priorities(tasks.skip(1)));
        assert(statuses(tasks)[0] == own_status(tasks[0]));
        assert(priorities(tasks)[0] == own_priority(tasks[0]));
    } else {
        assert(statuses(tasks).len() == 0);
        assert(priorities(tasks).len() == 0);
    }
}

proof fn lemma_more_statuses(tasks: Seq<Json>, names: Set<Seq<char>>, name: Seq<char>)
    requires
        !names.contains(name),
    ensures
        tasks_in(tasks, names.insert(name)) == tasks_in(tasks, names) + tasks_in(
            tasks,
            set![name],
        ),
    decreases tasks.len(),
{
    if tasks.len() > 0 {
        lemma_more_statuses(tasks.skip(1), names, name);
    }
}

proof fn lemma_occurs(words: Seq<Seq<char>>, word: Seq<char>)
    ensures
        words.contains(word) == (occurrences(words, word) > 0),
    decreases words.len(),
{
    reveal(Seq::filter);
    if words.len() > 0 {
        let rest = words.skip(1);
        lemma_first_word(words, word);
        lemma_occurs(rest, word);
        if words.contains(word) && words[0] != word {
            let i = choose|i: int| 0 <= i < words.len() && words[i] == word;
            assert(rest[i - 1] == word);
        }
        if rest.contains(word) {
            let i = choose|i: int| 0 <= i < rest.len() && rest[i] == word;
            assert(words[i + 1] == word);
        }
        if words[0] == word {
            assert(words.contains(word));
        }
    }
}

/// `task/statistics` counts the tasks: all of them, those of each status and of each priority that
/// there is, those that are in progress (`in-progress` or `in_progress`), those that are `blocked`,
/// and those that are over (`completed`, `done` or `cancelled`).
pub proof fn statistics_count_the_tasks(
    rows: Map<Seq<char>, Json>,
    params: Option<Json>,
    at: Setting,
    word: Seq<char>,
)
    ensures
        ({
            let tasks = tasks_in_order(rows, at);
            let outcome = request(rows, "task/statistics"@, params, at);
            let reply = (outcome->0).1->Ok_0;
            &&& outcome is Some
            &&& (outcome->0).0 == rows
            &&& (outcome->0).1 is Ok
            &&& reply.field("total"@) == Some(number(tasks.len()))
            &&& reply.field("in_progress"@) == Some(
                number(tasks_in(tasks, set!["in-progress"@, "in_progress"@])),
            )
            &&& reply.field("blocked"@) == Some(number(tasks_in(tasks, set!["blocked"@])))
            &&& reply.field("completed"@) == Some(
                number(tasks_in(tasks, set!["completed"@, "done"@, "cancelled"@])),
            )
            &&& reply.nested("by_status"@, word) == (if tasks_in(tasks, set![word]) > 0 {
                Some(number(tasks_in(tasks, set![word])))
            } else {
                None
            })
            &&& reply.nested("by_priority"@, word) == (if tasks_of(tasks, word) > 0 {
                Some(number(tasks_of(tasks, word)))
            } else {
                None
            })
        }),
{
    let tasks = tasks_in_order(rows, at);
    lemma_names();
    reveal_strlit("in-progress");
    reveal_strlit("in_progress");
    assert("in-progress"@[2] != "in_progress"@[2]);
    each_method_has_its_step(params);
    lemma_one_status(tasks, word);
    lemma_one_status(tasks, "in-progress"@);
    lemma_one_status(tasks, "in_progress"@);
    lemma_one_status(tasks, "blocked"@);
    lemma_one_status(tasks, "completed"@);
    lemma_one_status(tasks, "done"@);
    lemma_one_status(tasks, "cancelled"@);
    lemma_more_statuses(tasks, set!["in-progress"@], "in_progress"@);
    lemma_more_statuses(tasks, set!["completed"@], "done"@);
    lemma_more_statuses(tasks, set!["completed"@, "done"@], "cancelled"@);
    lemma_occurs(statuses(tasks), word);
    lemma_occurs(priorities(tasks), word);
    assert(request(rows, "task/statistics"@, params, at) == Some(
        (rows, Ok::<Json, Fault>(statistics_of(tasks))),
    ));
}

/// The places of the items that pass.
proof fn lemma_places(s: Seq<Json>, pass: spec_fn(Json) -> bool) -> (places: Seq<int>)
    ensures
        places.len() == s.filter(pass).len(),
        forall|k: int|
            0 <= k < places.len() ==> 0 <= #[trigger] places[k] < s.len() && s[places[k]]
                == s.filter(pass)[k] && pass(s[places[k]]),
        forall|k: int, l: int|
            0 <= k < l < places.len() ==> #[trigger] places[k] < #[trigger] places[l],
        forall|i: int| 0 <= i < s.len() && pass(#[trigger] s[i]) ==> places.contains(i),
    decreases s.len(),
{
    reveal(Seq::filter);
    if s.len() == 0 {
        Seq::empty()
    } else {
        let rest = s.drop_last();
        let before = lemma_places(rest, pass);
        let places = if pass(s.last()) {
            before.push(s.len() - 1)
        } else {
            before
        };
        assert forall|k: int| 0 <= k < places.len() implies 0 <= #[trigger] places[k] < s.len()
            && s[places[k]] == s.filter(pass)[k] && pass(s[places[k]]) by {
            if k < before.len() {
                assert(places[k] == before[k]);
                assert(rest[before[k]] == s[before[k]]);
            }
        }
        assert forall|k: int, l: int| 0 <= k < l < places.len() implies #[trigger] places[k]
            < #[trigger] places[l] by {
            assert(places[k] == before[k]);
            if l < before.len() {
                assert(places[l] == before[l]);
            }
        }
        assert forall|i: int| 0 <= i < s.len() && pass(#[trigger] s[i]) implies places.contains(
            i,
        ) by {
            if i < rest.len() {
                assert(rest[i] == s[i]);
                let k = choose|k: int| 0 <= k < before.len() && before[k] == i;
                assert(places[k] == i);
            } else {
                assert(places[places.len() - 1] == i);
            }
        }
        places
    }
}

/// The status that a listing asks for: that of a string, or of the first item of an array.
pub open spec fn wanted_status(params: Json) -> Option<Seq<char>> {
    match params.field("status"@) {
        Some(Json::String(status)) => Some(status),
        Some(Json::Array(items)) => if items.len() > 0 {
            match items[0] {
                Json::String(status) => Some(status),
                _ => None,
            }
        } else {
            None
        },
        _ => None,
    }
}

/// Whether a listing asks for a task: for any, or for one that says the status.
pub open spec fn is_wanted(params: Json, task: Json) -> bool {
    wanted_status(params) matches Some(status) ==> task.field("status"@) == Some(
        Json::String(status),
    )
}

/// `task/list` and `task/list_filtered` show the tasks in the status that the parameters ask for,
/// or all tasks, in their order, on a page without a successor. Where the parameters say a limit
/// they show no more, and they leave out none of these tasks that comes before one that they show,
/// nor any as long as there is room. The places of the tasks are what this function gives.
pub proof fn listings_show_the_wanted_tasks(
    rows: Map<Seq<char>, Json>,
    method: Seq<char>,
    params: Json,
    at: Setting,
) -> (places: Seq<int>)
    requires
        method == "task/list"@ || method == "task/list_filtered"@,
    ensures
        ({
            let tasks = tasks_in_order(rows, at);
            let outcome = request(rows, method, Some(params), at);
            let reply = (outcome->0).1->Ok_0;
            let subjects = reply.items("subjects"@)->0;
            &&& outcome is Some
            &&& (outcome->0).0 == rows
            &&& (outcome->0).1 is Ok
            &&& reply.field("next_cursor"@) == Some(Json::Null)
            &&& reply.items("subjects"@) is Some
            &&& subjects.len() == places.len()
            &&& forall|k: int|
                0 <= k < places.len() ==> {
                    &&& 0 <= #[trigger] places[k] < tasks.len()
                    &&& is_wanted(params, tasks[places[k]])
                    &&& subjects[k] == subject_of(tasks[places[k]])
                }
            &&& forall|k: int, l: int|
                0 <= k < l < places.len() ==> #[trigger] places[k] < #[trigger] places[l]
            &&& forall|i: int|
                0 <= i < tasks.len() && is_wanted(params, #[trigger] tasks[i]) && places.len() > 0
                    && i < places.last() ==> places.contains(i)
            &&& !(params.field("limit"@) matches Some(Json::Number(JsonNumber::PosInt(_))))
                ==> forall|i: int|
                0 <= i < tasks.len() && is_wanted(params, #[trigger] tasks[i]) ==> places.contains(
                    i,
                )
            &&& params.field("limit"@) matches Some(Json::Number(JsonNumber::PosInt(n))) ==> {
                &&& places.len() <= n as usize
                &&& places.len() < n as usize ==> forall|i: int|
                    0 <= i < tasks.len() && is_wanted(params, #[trigger] tasks[i])
                        ==> places.contains(i)
            }
        }),
{
    let tasks = tasks_in_order(rows, at);
    lemma_names();
    each_method_has_its_step(Some(params));
    let status = wanted_status(params);
    let limit = match params.field("limit"@) {
        Some(Json::Number(JsonNumber::PosInt(n))) => Some(n as usize),
        _ => None,
    };
    let pass = |t: Json| status is None || t.text("status"@) == status;
    let all = lemma_places(tasks, pass);
    assert(of_status(tasks, status) == tasks.filter(pass));
    let places = match limit {
        Some(n) => if n < all.len() {
            all.take(n as int)
        } else {
            all
        },
        None => all,
    };
    let shown = limited(of_status(tasks, status), limit);
    assert(subjects_of(shown).len() == shown.len());
    assert forall|t: Json| #[trigger] pass(t) == is_wanted(params, t) by {}
    assert forall|k: int| 0 <= k < places.len() implies 0 <= #[trigger] places[k] < tasks.len()
        && is_wanted(params, tasks[places[k]]) && subjects_of(shown)[k] == subject_of(
        tasks[places[k]],
    ) by {
        assert(places[k] == all[k]);
        assert(shown[k] == tasks.filter(pass)[k]);
        assert(pass(tasks[places[k]]));
    }
    assert forall|k: int, l: int| 0 <= k < l < places.len() implies #[trigger] places[k]
        < #[trigger] places[l] by {
        assert(places[k] == all[k]);
        assert(places[l] == all[l]);
    }
    assert forall|i: int|
        0 <= i < tasks.len() && is_wanted(params, #[trigger] tasks[i]) && (places.len()
            == all.len() || (places.len() > 0 && i < places.last())) implies places.contains(i) by {
        assert(pass(tasks[i]));
        assert(all.contains(i));
        let k = choose|k: int| 0 <= k < all.len() && all[k] == i;
        if k >= places.len() {
            assert(places.last() == all[places.len() - 1]);
            assert(all[places.len() - 1] < all[k] || places.len() - 1 == k);
        }
        assert(places[k] == i);
    }
    places
}

proof fn lemma_ranked_places(tasks: Seq<Json>, r: int) -> (places: Seq<int>)
    requires
        0 <= r <= 5,
    ensures
        places.len() == from_rank(tasks, r).len(),
        forall|k: int|
            0 <= k < places.len() ==> 0 <= #[trigger] places[k] < tasks.len() && from_rank(
                tasks,
                r,
            )[k] == tasks[places[k]] && rank(tasks[places[k]]) >= r,
        forall|k: int, l: int|
            0 <= k < l < places.len() ==> rank(tasks[#[trigger] places[k]]) > rank(
                tasks[#[trigger] places[l]],
            ) || (rank(tasks[places[k]]) == rank(tasks[places[l]]) && places[k] < places[l]),
        forall|i: int|
            0 <= i < tasks.len() && rank(#[trigger] tasks[i]) >= r ==> places.contains(i),
    decreases 5 - r,
{
    if r == 5 {
        Seq::empty()
    } else {
        let higher = lemma_ranked_places(tasks, r + 1);
        let pass = |t: Json| rank(t) == r;
        let here = lemma_places(tasks, pass);
        assert(of_rank(tasks, r) == tasks.filter(pass));
        let places = higher + here;
        assert forall|k: int| 0 <= k < places.len() implies 0 <= #[trigger] places[k] < tasks.len()
            && from_rank(tasks, r)[k] == tasks[places[k]] && rank(tasks[places[k]]) >= r && (k
            >= higher.len() ==> rank(tasks[places[k]]) == r) && (k < higher.len() ==> rank(
            tasks[places[k]],
        ) > r) by {
            if k < higher.len() {
                assert(places[k] == higher[k]);
            } else {
                assert(places[k] == here[k - higher.len()]);
                assert(pass(tasks[places[k]]));
            }
        }
        assert forall|k: int, l: int| 0 <= k < l < places.len() implies rank(
            tasks[#[trigger] places[k]],
        ) > rank(tasks[#[trigger] places[l]]) || (rank(tasks[places[k]]) == rank(tasks[places[l]])
            && places[k] < places[l]) by {
            if l < higher.len() {
                assert(places[k] == higher[k]);
                assert(places[l] == higher[l]);
            } else if k >= higher.len() {
                assert(places[k] == here[k - higher.len()]);
                assert(places[l] == here[l - higher.len()]);
            }
        }
        assert forall|i: int|
            0 <= i < tasks.len() && rank(#[trigger] tasks[i]) >= r implies places.contains(i) by {
            if rank(tasks[i]) >= r + 1 {
                let k = choose|k: int| 0 <= k < higher.len() && higher[k] == i;
                assert(places[k] == i);
            } else {
                assert(pass(tasks[i]));
                let k = choose|k: int| 0 <= k < here.len() && here[k] == i;
                assert(places[higher.len() + k] == i);
            }
        }
        places
    }
}

/// `task/list_prioritized` shows every task once: more urgent ones first, and those that are
/// equally urgent in their order. The places of the tasks are what this function gives.
pub proof fn prioritized_listings_show_urgent_tasks_first(
    rows: Map<Seq<char>, Json>,
    params: Option<Json>,
    at: Setting,
) -> (places: Seq<int>)
    ensures
        ({
            let tasks = tasks_in_order(rows, at);
            let outcome = request(rows, "task/list_prioritized"@, params, at);
            let reply = (outcome->0).1->Ok_0;
            let subjects = reply.items("subjects"@)->0;
            &&& outcome is Some
            &&& (outcome->0).0 == rows
            &&& (outcome->0).1 is Ok
            &&& reply.field("next_cursor"@) == Some(Json::Null)
            &&& reply.items("subjects"@) is Some
            &&& subjects.len() == places.len()
            &&& forall|k: int|
                0 <= k < places.len() ==> 0 <= #[trigger] places[k] < tasks.len() && subjects[k]
                    == subject_of(tasks[places[k]])
            &&& forall|k: int, l: int|
                0 <= k < l < places.len() ==> urgency(tasks[#[trigger] places[k]]) > urgency(
                    tasks[#[trigger] places[l]],
                ) || (urgency(tasks[places[k]]) == urgency(tasks[places[l]]) && places[k]
                    < places[l])
            &&& forall|i: int| 0 <= i < tasks.len() ==> #[trigger] places.contains(i)
        }),
{
    let tasks = tasks_in_order(rows, at);
    lemma_names();
    each_method_has_its_step(params);
    let places = lemma_ranked_places(tasks, 0);
    let shown = prioritized(tasks);
    assert(subjects_of(shown).len() == shown.len());
    assert forall|t: Json| #[trigger] rank(t) == urgency(t) by {
        rank_is_urgency(t);
    }
    assert forall|k: int| 0 <= k < places.len() implies 0 <= #[trigger] places[k] < tasks.len()
        && subjects_of(shown)[k] == subject_of(tasks[places[k]]) by {
        assert(shown[k] == tasks[places[k]]);
    }
    assert forall|i: int| 0 <= i < tasks.len() implies #[trigger] places.contains(i) by {
        assert(rank(tasks[i]) >= 0);
    }
    assert forall|k: int, l: int| 0 <= k < l < places.len() implies urgency(
        tasks[#[trigger] places[k]],
    ) > urgency(tasks[#[trigger] places[l]]) || (urgency(tasks[places[k]]) == urgency(
        tasks[places[l]],
    ) && places[k] < places[l]) by {
        assert(rank(tasks[places[k]]) == urgency(tasks[places[k]]));
        assert(rank(tasks[places[l]]) == urgency(tasks[places[l]]));
    }
    places
}

} // verus!
