//! Answers that are drawn from all tasks.
use crate::methods::view::{native_status, subject_of, subject_view, text_or};
use crate::text::{same, str_view};
use crate::value::{items_view, or_else, Json, JsonNumber, Number, Object, Value};
use vstd::prelude::*;

verus! {

/// A page of subjects, which is the only one.
pub open spec fn page(subjects: Seq<Json>) -> Json {
    Json::Object(map!["subjects"@ => Json::Array(subjects), "next_cursor"@ => Json::Null])
}

/// The subjects that tasks are shown as.
pub open spec fn subjects_of(tasks: Seq<Json>) -> Seq<Json> {
    tasks.map_values(|t: Json| subject_of(t))
}

/// The tasks of a native status; all of them where none is asked for.
pub open spec fn of_status(tasks: Seq<Json>, status: Option<Seq<char>>) -> Seq<Json> {
    tasks.filter(|t: Json| status is None || t.text("status"@) == status)
}

/// At most the first `limit` of the tasks; all of them where there is no limit.
pub open spec fn limited(tasks: Seq<Json>, limit: Option<usize>) -> Seq<Json> {
    match limit {
        Some(n) => if n < tasks.len() {
            tasks.take(n as int)
        } else {
            tasks
        },
        None => tasks,
    }
}

fn page_value(subjects: Vec<Value>) -> (value: Value)
    ensures
        value@ == page(items_view(subjects@)),
{
    let mut object = Object::new();
    object.insert("subjects", Value::Array(subjects));
    object.insert("next_cursor", Value::Null);
    Value::Object(object)
}

/// A page of the tasks of a native status, up to a limit.
pub fn list(tasks: &Vec<Value>, limit: Option<usize>, status: Option<&str>) -> (reply: Value)
    ensures
        reply@ == page(
            subjects_of(limited(of_status(items_view(tasks@), str_view(status)), limit)),
        ),
{
    let ghost all = items_view(tasks@);
    let ghost want = str_view(status);
    let most: usize = match limit {
        Some(n) => n,
        None => usize::MAX,
    };
    let mut subjects: Vec<Value> = Vec::new();
    proof {
        reveal(Seq::filter);
        assert(items_view(subjects@) =~= subjects_of(limited(of_status(all.take(0), want), limit)));
    }
    for i in 0..tasks.len()
        invariant
            all == items_view(tasks@),
            want == str_view(status),
            most == (match limit {
                Some(n) => n,
                None => usize::MAX,
            }),
            items_view(subjects@) == subjects_of(
                limited(of_status(all.take(i as int), want), limit),
            ),
            of_status(all.take(i as int), want).len() <= i,
            subjects.len() == items_view(subjects@).len(),
    {
        let ghost picked = of_status(all.take(i as int), want);
        let ghost task = all[i as int];
        proof {
            reveal(Seq::filter);
            assert(all.take(i + 1).drop_last() == all.take(i as int));
            assert(all.take(i + 1).last() == task);
        }
        let wanted = match status {
            None => true,
            Some(want) => match tasks[i].text("status") {
                Some(have) => same(have, want),
                None => false,
            },
        };
        if wanted {
            assert(of_status(all.take(i + 1), want) == picked.push(task));
            if subjects.len() < most {
                let ghost before = subjects@;
                subjects.push(subject_view(&tasks[i]));
                assert(items_view(subjects@) =~= items_view(before).push(subject_of(task)));
                assert(subjects_of(picked.push(task)) =~= subjects_of(picked).push(
                    subject_of(task),
                ));
            } else {
                assert(limited(picked.push(task), limit) =~= limited(picked, limit));
            }
        } else {
            assert(of_status(all.take(i + 1), want) == picked);
        }
    }
    assert(all.take(all.len() as int) == all);
    page_value(subjects)
}

/// The rank from 0 (not known) to 4 (critical) that tasks are ordered by.
pub open spec fn rank(task: Json) -> int {
    let priority = or_else(task.text("priority"@), "medium"@);
    if priority == "critical"@ {
        4
    } else if priority == "high"@ {
        3
    } else if priority == "medium"@ {
        2
    } else if priority == "low"@ {
        1
    } else {
        0
    }
}

/// The rank that a task is ordered by.
pub fn priority_rank(task: &Value) -> (r: u8)
    ensures
        r == rank(task@),
{
    let priority = text_or(task, "priority", "medium");
    if same(priority, "critical") {
        4
    } else if same(priority, "high") {
        3
    } else if same(priority, "medium") {
        2
    } else if same(priority, "low") {
        1
    } else {
        0
    }
}

/// The tasks of one rank, in their order.
pub open spec fn of_rank(tasks: Seq<Json>, r: int) -> Seq<Json> {
    tasks.filter(|t: Json| rank(t) == r)
}

/// The tasks of the ranks from `r` up: those of a higher rank first, those of one rank in their
/// order.
pub open spec fn from_rank(tasks: Seq<Json>, r: int) -> Seq<Json>
    decreases 5 - r,
{
    if r > 4 {
        Seq::empty()
    } else {
        from_rank(tasks, r + 1) + of_rank(tasks, r)
    }
}

/// The tasks by priority, highest first; those of one rank keep their order.
pub open spec fn prioritized(tasks: Seq<Json>) -> Seq<Json> {
    from_rank(tasks, 0)
}

/// The tasks by priority, highest first; those of one rank keep their order.
fn prioritize(tasks: &Vec<Value>) -> (ordered: Vec<Value>)
    ensures
        items_view(ordered@) == prioritized(items_view(tasks@)),
{
    let ghost all = items_view(tasks@);
    let mut ordered: Vec<Value> = Vec::new();
    assert(items_view(ordered@) =~= from_rank(all, 5));
    let mut r: u8 = 5;
    while r > 0
        invariant
            r <= 5,
            all == items_view(tasks@),
            items_view(ordered@) == from_rank(all, r as int),
        decreases r,
    {
        r = r - 1;
        let ghost higher = items_view(ordered@);
        proof {
            reveal(Seq::filter);
            assert(of_rank(all.take(0), r as int) =~= Seq::empty());
            assert(higher + of_rank(all.take(0), r as int) =~= higher);
        }
        for i in 0..tasks.len()
            invariant
                all == items_view(tasks@),
                items_view(ordered@) == higher + of_rank(all.take(i as int), r as int),
        {
            proof {
                reveal(Seq::filter);
                assert(all.take(i + 1).drop_last() == all.take(i as int));
                assert(all.take(i + 1).last() == all[i as int]);
            }
            if priority_rank(&tasks[i]) == r {
                let ghost before = ordered@;
                ordered.push(tasks[i].clone());
                assert(items_view(ordered@) =~= items_view(before).push(all[i as int]));
                assert(of_rank(all.take(i + 1), r as int) == of_rank(
                    all.take(i as int),
                    r as int,
                ).push(all[i as int]));
                assert(items_view(ordered@) =~= higher + of_rank(all.take(i + 1), r as int));
            } else {
                assert(of_rank(all.take(i + 1), r as int) == of_rank(all.take(i as int), r as int));
            }
        }
        assert(all.take(all.len() as int) == all);
    }
    ordered
}

fn subject_views(tasks: &Vec<Value>) -> (subjects: Vec<Value>)
    ensures
        items_view(subjects@) == subjects_of(items_view(tasks@)),
{
    let mut subjects: Vec<Value> = Vec::new();
    for i in 0..tasks.len()
        invariant
            subjects.len() == i,
            forall|j: int| 0 <= j < i ==> (#[trigger] subjects[j])@ == subject_of(tasks[j]@),
    {
        subjects.push(subject_view(&tasks[i]));
    }
    assert(items_view(subjects@) =~= subjects_of(items_view(tasks@)));
    subjects
}

/// A page of all tasks by priority, highest first.
pub fn list_prioritized(tasks: &Vec<Value>) -> (reply: Value)
    ensures
        reply@ == page(subjects_of(prioritized(items_view(tasks@)))),
{
    page_value(subject_views(&prioritize(tasks)))
}

/// Whether a task can be picked up.
pub open spec fn is_open(task: Json) -> bool {
    ||| task.text("status"@) == Some("ready"@)
    ||| task.text("status"@) == Some("backlog"@)
    ||| task.text("status"@) == Some("in-progress"@)
}

/// The tasks that can be picked up.
pub open spec fn open_tasks(tasks: Seq<Json>) -> Seq<Json> {
    tasks.filter(|t: Json| is_open(t))
}

/// The task to pick up next: of those that can be, the first one of the highest rank.
pub open spec fn next_task(tasks: Seq<Json>) -> Option<Json> {
    let ordered = prioritized(open_tasks(tasks));
    if ordered.len() > 0 {
        Some(ordered[0])
    } else {
        None
    }
}

fn open_status(task: &Value) -> (yes: bool)
    ensures
        yes == is_open(task@),
{
    match task.text("status") {
        Some(s) => same(s, "ready") || same(s, "backlog") || same(s, "in-progress"),
        None => false,
    }
}

/// The task to pick up next, or null where there is none.
pub fn next(tasks: &Vec<Value>) -> (reply: Value)
    ensures
        reply@ == (match next_task(items_view(tasks@)) {
            Some(task) => subject_of(task),
            None => Json::Null,
        }),
{
    let ghost all = items_view(tasks@);
    let mut open: Vec<Value> = Vec::new();
    proof {
        reveal(Seq::filter);
        assert(items_view(open@) =~= open_tasks(all.take(0)));
    }
    for i in 0..tasks.len()
        invariant
            all == items_view(tasks@),
            items_view(open@) == open_tasks(all.take(i as int)),
    {
        proof {
            reveal(Seq::filter);
            assert(all.take(i + 1).drop_last() == all.take(i as int));
            assert(all.take(i + 1).last() == all[i as int]);
        }
        if open_status(&tasks[i]) {
            let ghost before = open@;
            open.push(tasks[i].clone());
            assert(items_view(open@) =~= items_view(before).push(all[i as int]));
        }
    }
    assert(all.take(all.len() as int) == all);
    let ordered = prioritize(&open);
    assert(items_view(ordered@).len() == ordered.len());
    if ordered.len() > 0 {
        assert(items_view(ordered@)[0] == ordered[0]@);
        subject_view(&ordered[0])
    } else {
        Value::Null
    }
}

/// How often a word occurs.
pub open spec fn occurrences(words: Seq<Seq<char>>, word: Seq<char>) -> nat {
    words.filter(|w: Seq<char>| w == word).len()
}

/// A count as a number document.
pub open spec fn count(n: nat) -> Json {
    Json::Number(JsonNumber::PosInt(n as u64))
}

/// Each word that occurs, with how often it does.
pub open spec fn tally(words: Seq<Seq<char>>) -> Map<Seq<char>, Json> {
    Map::new(|w: Seq<char>| words.contains(w), |w: Seq<char>| count(occurrences(words, w)))
}

/// The native status of each task.
pub open spec fn statuses(tasks: Seq<Json>) -> Seq<Seq<char>> {
    tasks.map_values(|t: Json| native_status(t))
}

/// The priority of each task.
pub open spec fn priorities(tasks: Seq<Json>) -> Seq<Seq<char>> {
    tasks.map_values(|t: Json| or_else(t.text("priority"@), "medium"@))
}

/// The counts over all tasks.
pub open spec fn statistics_of(tasks: Seq<Json>) -> Json {
    let status = statuses(tasks);
    Json::Object(
        map![
            "total"@ => count(tasks.len()),
            "by_status"@ => Json::Object(tally(status)),
            "by_priority"@ => Json::Object(tally(priorities(tasks))),
            "in_progress"@ => count(
                occurrences(status, "in-progress"@) + occurrences(status, "in_progress"@),
            ),
            "blocked"@ => count(occurrences(status, "blocked"@)),
            "completed"@ => count(
                occurrences(status, "completed"@) + occurrences(status, "done"@) + occurrences(
                    status,
                    "cancelled"@,
                ),
            ),
        ],
    )
}

/// One more word.
proof fn lemma_one_more_word(words: Seq<Seq<char>>, word: Seq<char>)
    ensures
        forall|w: Seq<char>| #[trigger]
            occurrences(words.push(word), w) == occurrences(words, w) + (if w == word {
                1nat
            } else {
                0nat
            }),
        tally(words.push(word)) == tally(words).insert(
            word,
            count((occurrences(words, word) + 1) as nat),
        ),
{
    assert forall|w: Seq<char>| #[trigger]
        occurrences(words.push(word), w) == occurrences(words, w) + (if w == word {
            1nat
        } else {
            0nat
        }) by {
        reveal(Seq::filter);
        assert(words.push(word).drop_last() == words);
    }
    assert forall|w: Seq<char>| #[trigger]
        words.push(word).contains(w) == (words.contains(w) || w == word) by {
        if words.contains(w) {
            let i = choose|i: int| 0 <= i < words.len() && words[i] == w;
            assert(words.push(word)[i] == w);
        }
        assert(words.push(word)[words.len() as int] == word);
        if words.push(word).contains(w) && w != word {
            let i = choose|i: int| 0 <= i < words.push(word).len() && words.push(word)[i] == w;
            assert(words[i] == w);
        }
    }
    let left = tally(words.push(word));
    let right = tally(words).insert(word, count((occurrences(words, word) + 1) as nat));
    assert forall|w: Seq<char>| #[trigger] left.contains_key(w) == right.contains_key(w) by {
        assert(words.push(word).contains(w) == (words.contains(w) || w == word));
    }
    assert forall|w: Seq<char>| #[trigger] left.contains_key(w) implies left[w] == right[w] by {
        assert(occurrences(words.push(word), w) == occurrences(words, w) + (if w == word {
            1nat
        } else {
            0nat
        }));
    }
    assert(left =~= right);
}

/// No word occurs more often than there are words; one that is not there does not occur.
proof fn lemma_occurrences(words: Seq<Seq<char>>, word: Seq<char>)
    ensures
        occurrences(words, word) <= words.len(),
        !words.contains(word) ==> occurrences(words, word) == 0,
    decreases words.len(),
{
    reveal(Seq::filter);
    if words.len() > 0 {
        lemma_occurrences(words.drop_last(), word);
        if !words.contains(word) {
            assert(words.last() == words[words.len() - 1]);
            if words.drop_last().contains(word) {
                let i = choose|i: int|
                    0 <= i < words.drop_last().len() && words.drop_last()[i] == word;
                assert(words[i] == word);
            }
        }
    }
}

fn add_to_tally(counts: &mut Object, word: &str, Ghost(words): Ghost<Seq<Seq<char>>>)
    requires
        old(counts)@ == tally(words),
        words.len() < usize::MAX,
    ensures
        final(counts)@ == tally(words.push(word@)),
{
    proof {
        lemma_one_more_word(words, word@);
        lemma_occurrences(words, word@);
    }
    let so_far: u64 = match counts.get(word) {
        Some(v) => match v.as_u64() {
            Some(n) => n,
            None => 0,
        },
        None => 0,
    };
    assert(so_far == occurrences(words, word@));
    counts.insert(word, Value::Number(Number::PosInt(so_far + 1)));
}

fn count_value(n: usize) -> (value: Value)
    ensures
        value@ == count(n as nat),
{
    Value::Number(Number::PosInt(n as u64))
}

/// The counts over all tasks.
pub fn statistics(tasks: &Vec<Value>) -> (reply: Value)
    ensures
        reply@ == statistics_of(items_view(tasks@)),
{
    let ghost all = items_view(tasks@);
    let mut by_status = Object::new();
    let mut by_priority = Object::new();
    let mut in_progress: usize = 0;
    let mut blocked: usize = 0;
    let mut completed: usize = 0;
    proof {
        reveal(Seq::filter);
        assert(statuses(all.take(0)) =~= Seq::empty());
        assert(priorities(all.take(0)) =~= Seq::empty());
        assert(tally(Seq::empty()) =~= Map::empty());
    }
    for i in 0..tasks.len()
        invariant
            all == items_view(tasks@),
            all.len() == tasks.len(),
            by_status@ == tally(statuses(all.take(i as int))),
            by_priority@ == tally(priorities(all.take(i as int))),
            in_progress == occurrences(statuses(all.take(i as int)), "in-progress"@) + occurrences(
                statuses(all.take(i as int)),
                "in_progress"@,
            ),
            blocked == occurrences(statuses(all.take(i as int)), "blocked"@),
            completed == occurrences(statuses(all.take(i as int)), "completed"@) + occurrences(
                statuses(all.take(i as int)),
                "done"@,
            ) + occurrences(statuses(all.take(i as int)), "cancelled"@),
            in_progress + blocked + completed <= i,
    {
        let ghost words = statuses(all.take(i as int));
        let ghost ranks = priorities(all.take(i as int));
        let status = text_or(&tasks[i], "status", "backlog");
        let priority = text_or(&tasks[i], "priority", "medium");
        proof {
            assert(statuses(all.take(i + 1)) =~= words.push(status@));
            assert(priorities(all.take(i + 1)) =~= ranks.push(priority@));
            lemma_one_more_word(words, status@);
            reveal_strlit("in-progress");
            reveal_strlit("in_progress");
            reveal_strlit("blocked");
            reveal_strlit("completed");
            reveal_strlit("done");
            reveal_strlit("cancelled");
            assert("in-progress"@[2] != "in_progress"@[2]);
            assert("completed"@[1] != "cancelled"@[1]);
            assert("done"@.len() < "blocked"@.len() < "completed"@.len() < "in-progress"@.len());
        }
        add_to_tally(&mut by_status, status, Ghost(words));
        add_to_tally(&mut by_priority, priority, Ghost(ranks));
        if same(status, "in-progress") || same(status, "in_progress") {
            in_progress = in_progress + 1;
        } else if same(status, "blocked") {
            blocked = blocked + 1;
        } else if same(status, "completed") || same(status, "done") || same(status, "cancelled") {
            completed = completed + 1;
        }
    }
    assert(all.take(all.len() as int) == all);
    let mut object = Object::new();
    object.insert("total", count_value(tasks.len()));
    object.insert("by_status", Value::Object(by_status));
    object.insert("by_priority", Value::Object(by_priority));
    object.insert("in_progress", count_value(in_progress));
    object.insert("blocked", count_value(blocked));
    object.insert("completed", count_value(completed));
    Value::Object(object)
}

} // verus!
