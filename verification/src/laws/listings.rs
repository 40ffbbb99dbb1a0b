//! Listings, the next task and the statistics.
use crate::laws::names::lemma_names;
use crate::laws::sequences::lemma_filter;
use crate::methods::listing::{
    count, from_rank, is_open, limited, next_task, occurrences, of_rank, of_status, open_tasks,
    priorities, prioritized, rank, statistics_of, statuses,
};
use crate::value::Json;
use vstd::prelude::*;
use vstd::string::*;

verus! {

/// The tasks whose rank is at least `r`.
spec fn at_least(tasks: Seq<Json>, r: int) -> Seq<Json> {
    tasks.filter(|t: Json| rank(t) >= r)
}

proof fn lemma_at_least(tasks: Seq<Json>, r: int)
    ensures
        at_least(tasks, r).to_multiset() == at_least(tasks, r + 1).to_multiset().add(
            of_rank(tasks, r).to_multiset(),
        ),
    decreases tasks.len(),
{
    broadcast use vstd::seq_lib::group_to_multiset_ensures;

    reveal(Seq::filter);
    if tasks.len() > 0 {
        lemma_at_least(tasks.drop_last(), r);
        let last = tasks.last();
        assert(at_least(tasks, r).to_multiset() =~= at_least(tasks, r + 1).to_multiset().add(
            of_rank(tasks, r).to_multiset(),
        ));
    } else {
        assert(at_least(tasks, r) =~= Seq::empty());
        assert(at_least(tasks, r + 1) =~= Seq::empty());
        assert(of_rank(tasks, r) =~= Seq::empty());
        assert(at_least(tasks, r).to_multiset() =~= at_least(tasks, r + 1).to_multiset().add(
            of_rank(tasks, r).to_multiset(),
        ));
    }
}

proof fn lemma_everything_ranks(tasks: Seq<Json>)
    ensures
        at_least(tasks, 0) == tasks,
        at_least(tasks, 5) == Seq::<Json>::empty(),
    decreases tasks.len(),
{
    reveal(Seq::filter);
    if tasks.len() > 0 {
        lemma_everything_ranks(tasks.drop_last());
        assert(tasks == tasks.drop_last().push(tasks.last()));
    }
}

proof fn lemma_from_rank_items(tasks: Seq<Json>, r: int)
    requires
        0 <= r <= 5,
    ensures
        from_rank(tasks, r).to_multiset() == at_least(tasks, r).to_multiset(),
    decreases 5 - r,
{
    broadcast use vstd::seq_lib::group_to_multiset_ensures;

    lemma_everything_ranks(tasks);
    if r < 5 {
        lemma_from_rank_items(tasks, r + 1);
        lemma_at_least(tasks, r);
        vstd::seq_lib::lemma_multiset_commutative(from_rank(tasks, r + 1), of_rank(tasks, r));
    }
}

proof fn lemma_from_rank_sorted(tasks: Seq<Json>, r: int)
    requires
        0 <= r <= 5,
    ensures
        forall|i: int|
            0 <= i < from_rank(tasks, r).len() ==> rank(#[trigger] from_rank(tasks, r)[i]) >= r,
        forall|i: int, j: int|
            0 <= i <= j < from_rank(tasks, r).len() ==> rank(#[trigger] from_rank(tasks, r)[i])
                >= rank(#[trigger] from_rank(tasks, r)[j]),
    decreases 5 - r,
{
    if r < 5 {
        lemma_from_rank_sorted(tasks, r + 1);
        let higher = from_rank(tasks, r + 1);
        let here = of_rank(tasks, r);
        let all = from_rank(tasks, r);
        lemma_filter(tasks, |t: Json| rank(t) == r);
        assert forall|i: int| 0 <= i < all.len() implies rank(#[trigger] all[i]) >= r && (i
            >= higher.len() ==> rank(all[i]) == r) by {
            if i < higher.len() {
                assert(all[i] == higher[i]);
            } else {
                assert(all[i] == here[i - higher.len()]);
                assert(here.contains(all[i]));
            }
        }
        assert forall|i: int, j: int| 0 <= i <= j < all.len() implies rank(#[trigger] all[i])
            >= rank(#[trigger] all[j]) by {
            if j < higher.len() {
                assert(all[i] == higher[i]);
                assert(all[j] == higher[j]);
            } else {
                assert(rank(all[j]) == r);
            }
        }
    }
}

proof fn lemma_of_rank_again(tasks: Seq<Json>, q: int, r: int)
    ensures
        of_rank(of_rank(tasks, q), r) == if q == r {
            of_rank(tasks, r)
        } else {
            Seq::empty()
        },
    decreases tasks.len(),
{
    reveal(Seq::filter);
    if tasks.len() > 0 {
        lemma_of_rank_again(tasks.drop_last(), q, r);
        let before = of_rank(tasks.drop_last(), q);
        if rank(tasks.last()) == q {
            assert(before.push(tasks.last()).drop_last() == before);
        }
    } else {
        assert(of_rank(tasks, q) =~= Seq::empty());
    }
}

proof fn lemma_from_rank_stable(tasks: Seq<Json>, k: int, r: int)
    requires
        0 <= k <= 5,
        0 <= r <= 4,
    ensures
        of_rank(from_rank(tasks, k), r) == if r >= k {
            of_rank(tasks, r)
        } else {
            Seq::empty()
        },
    decreases 5 - k,
{
    if k < 5 {
        lemma_from_rank_stable(tasks, k + 1, r);
        lemma_of_rank_again(tasks, k, r);
        Seq::filter_distributes_over_add(
            from_rank(tasks, k + 1),
            of_rank(tasks, k),
            |t: Json| rank(t) == r,
        );
    } else {
        reveal(Seq::filter);
    }
    assert(of_rank(from_rank(tasks, k), r) =~= if r >= k {
        of_rank(tasks, r)
    } else {
        Seq::empty()
    });
}

/// The order by priority has the same tasks, those of a higher rank before those of a lower one,
/// and those of one rank in the order in which they were.
pub proof fn priority_order_is_stable(tasks: Seq<Json>)
    ensures
        prioritized(tasks).to_multiset() == tasks.to_multiset(),
        forall|i: int, j: int|
            0 <= i <= j < prioritized(tasks).len() ==> rank(#[trigger] prioritized(tasks)[i])
                >= rank(#[trigger] prioritized(tasks)[j]),
        forall|r: int| 0 <= r <= 4 ==> #[trigger] of_rank(prioritized(tasks), r) == of_rank(tasks, r),
{
    lemma_everything_ranks(tasks);
    lemma_from_rank_items(tasks, 0);
    lemma_from_rank_sorted(tasks, 0);
    assert forall|r: int| 0 <= r <= 4 implies #[trigger] of_rank(prioritized(tasks), r) == of_rank(
        tasks,
        r,
    ) by {
        lemma_from_rank_stable(tasks, 0, r);
    }
}

/// There is a next task exactly where a task is open. It is one of the open tasks, none of them
/// has a higher rank, and of those with its rank it is the first.
pub proof fn next_task_is_the_first_of_the_highest(tasks: Seq<Json>)
    ensures
        next_task(tasks) is None <==> forall|i: int|
            0 <= i < tasks.len() ==> !is_open(#[trigger] tasks[i]),
        next_task(tasks) matches Some(task) ==> {
            &&& tasks.contains(task)
            &&& is_open(task)
            &&& forall|i: int|
                0 <= i < tasks.len() && is_open(#[trigger] tasks[i]) ==> rank(tasks[i]) <= rank(
                    task,
                )
            &&& of_rank(open_tasks(tasks), rank(task)).len() > 0
            &&& of_rank(open_tasks(tasks), rank(task))[0] == task
        },
{
    broadcast use vstd::seq_lib::group_to_multiset_ensures;

    let open = open_tasks(tasks);
    let ordered = prioritized(open);
    lemma_filter(tasks, |t: Json| is_open(t));
    priority_order_is_stable(open);
    assert(ordered.to_multiset().len() == open.to_multiset().len());
    assert forall|i: int| 0 <= i < tasks.len() && is_open(#[trigger] tasks[i]) implies ordered.len()
        > 0 && rank(tasks[i]) <= rank(ordered[0]) by {
        assert(tasks.contains(tasks[i]));
        assert(open.contains(tasks[i]));
        assert(open.to_multiset().contains(tasks[i]));
        assert(ordered.contains(tasks[i]));
        let j = choose|j: int| 0 <= j < ordered.len() && ordered[j] == tasks[i];
        assert(rank(ordered[0]) >= rank(ordered[j]));
    }
    if ordered.len() > 0 {
        let task = ordered[0];
        assert(ordered.contains(task));
        assert(ordered.to_multiset().contains(task));
        assert(open.contains(task));
        let r = rank(task);
        assert(of_rank(ordered, r) == of_rank(open, r));
        lemma_first_passes(ordered, |t: Json| rank(t) == r);
    }
}

proof fn lemma_first_passes(s: Seq<Json>, pass: spec_fn(Json) -> bool)
    requires
        s.len() > 0,
        pass(s[0]),
    ensures
        s.filter(pass).len() > 0,
        s.filter(pass)[0] == s[0],
    decreases s.len(),
{
    reveal(Seq::filter);
    if s.len() > 1 {
        lemma_first_passes(s.drop_last(), pass);
    } else {
        assert(s.drop_last().filter(pass).len() == 0);
    }
}

/// A listing shows the tasks of the status that is asked for, in their order and up to the limit:
/// all of them where there is none.
pub proof fn listings_show_what_is_asked_for(
    tasks: Seq<Json>,
    limit: Option<usize>,
    status: Option<Seq<char>>,
)
    ensures
        limited(of_status(tasks, status), limit).is_prefix_of(of_status(tasks, status)),
        limit matches Some(n) ==> limited(of_status(tasks, status), limit).len() <= n,
        limit matches Some(n) ==> (n >= of_status(tasks, status).len() ==> limited(
            of_status(tasks, status),
            limit,
        ) == of_status(tasks, status)),
        limit is None ==> limited(of_status(tasks, status), limit) == of_status(tasks, status),
        forall|task: Json| #[trigger]
            of_status(tasks, status).contains(task) == (tasks.contains(task) && (status is None
                || task.text("status"@) == status)),
        status is None ==> of_status(tasks, status) == tasks,
    decreases tasks.len(),
{
    lemma_filter(tasks, |t: Json| status is None || t.text("status"@) == status);
    if status is None {
        lemma_all_pass(tasks, |t: Json| status is None || t.text("status"@) == status);
    }
}

proof fn lemma_all_pass(s: Seq<Json>, pass: spec_fn(Json) -> bool)
    requires
        forall|t: Json| #[trigger] pass(t),
    ensures
        s.filter(pass) == s,
    decreases s.len(),
{
    reveal(Seq::filter);
    if s.len() > 0 {
        lemma_all_pass(s.drop_last(), pass);
        assert(s == s.drop_last().push(s.last()));
    }
}

/// How often the words of a list occur, taken together.
pub open spec fn occurrences_of_all(words: Seq<Seq<char>>, keys: Seq<Seq<char>>) -> nat
    decreases keys.len(),
{
    if keys.len() == 0 {
        0
    } else {
        occurrences_of_all(words, keys.drop_last()) + occurrences(words, keys.last())
    }
}

proof fn lemma_one_more(words: Seq<Seq<char>>, keys: Seq<Seq<char>>)
    requires
        words.len() > 0,
        keys.no_duplicates(),
    ensures
        occurrences_of_all(words, keys) == occurrences_of_all(words.drop_last(), keys) + (
        if keys.contains(words.last()) {
            1nat
        } else {
            0nat
        }),
    decreases keys.len(),
{
    reveal(Seq::filter);
    if keys.len() > 0 {
        let rest = keys.drop_last();
        lemma_one_more(words, rest);
        assert(keys == rest.push(keys.last()));
        assert(keys.contains(words.last()) == (rest.contains(words.last()) || keys.last()
            == words.last())) by {
            broadcast use vstd::seq_lib::group_seq_properties;

        }
        if rest.contains(words.last()) && keys.last() == words.last() {
            let i = choose|i: int| 0 <= i < rest.len() && rest[i] == words.last();
            assert(keys[i] == keys[keys.len() - 1]);
        }
    }
}

proof fn lemma_no_words(keys: Seq<Seq<char>>)
    ensures
        occurrences_of_all(Seq::empty(), keys) == 0,
    decreases keys.len(),
{
    reveal(Seq::filter);
    if keys.len() > 0 {
        lemma_no_words(keys.drop_last());
    }
}

/// The counts by status, or by priority, add up to the number of tasks.
pub proof fn counts_add_up(words: Seq<Seq<char>>, keys: Seq<Seq<char>>)
    requires
        keys.no_duplicates(),
        forall|i: int| 0 <= i < words.len() ==> keys.contains(#[trigger] words[i]),
    ensures
        occurrences_of_all(words, keys) == words.len(),
    decreases words.len(),
{
    if words.len() > 0 {
        let rest = words.drop_last();
        assert forall|i: int| 0 <= i < rest.len() implies keys.contains(#[trigger] rest[i]) by {
            assert(rest[i] == words[i]);
        }
        counts_add_up(rest, keys);
        lemma_one_more(words, keys);
        assert(words.last() == words[words.len() - 1]);
    } else {
        lemma_no_words(keys);
        assert(words =~= Seq::empty());
    }
}

proof fn lemma_counts_fit(words: Seq<Seq<char>>, keys: Seq<Seq<char>>)
    requires
        keys.no_duplicates(),
    ensures
        occurrences_of_all(words, keys) <= words.len(),
    decreases words.len(),
{
    if words.len() > 0 {
        lemma_counts_fit(words.drop_last(), keys);
        lemma_one_more(words, keys);
    } else {
        lemma_no_words(keys);
        assert(words =~= Seq::empty());
    }
}

/// The statistics count each status and each priority that occurs, and no others; no task is
/// counted as more than one of in progress, blocked and completed.
pub proof fn statistics_agree(tasks: Seq<Json>, word: Seq<char>)
    ensures
        statistics_of(tasks).field("total"@) == Some(count(tasks.len())),
        statistics_of(tasks).nested("by_status"@, word) == (if statuses(tasks).contains(word) {
            Some(count(occurrences(statuses(tasks), word)))
        } else {
            None
        }),
        statistics_of(tasks).nested("by_priority"@, word) == (if priorities(tasks).contains(word) {
            Some(count(occurrences(priorities(tasks), word)))
        } else {
            None
        }),
        exists|in_progress: nat, blocked: nat, completed: nat|
            {
                &&& statistics_of(tasks).field("in_progress"@) == Some(#[trigger] count(in_progress))
                &&& statistics_of(tasks).field("blocked"@) == Some(#[trigger] count(blocked))
                &&& statistics_of(tasks).field("completed"@) == Some(#[trigger] count(completed))
                &&& in_progress + blocked + completed <= tasks.len()
            },
{
    lemma_names();
    reveal_strlit("in-progress");
    reveal_strlit("in_progress");
    assert("in-progress"@[2] != "in_progress"@[2]);
    let words = statuses(tasks);
    let keys = seq![
        "in-progress"@,
        "in_progress"@,
        "blocked"@,
        "completed"@,
        "done"@,
        "cancelled"@,
    ];
    assert(keys.no_duplicates());
    lemma_counts_fit(words, keys);
    assert(occurrences_of_all(words, keys) == occurrences(words, "in-progress"@) + occurrences(
        words,
        "in_progress"@,
    ) + occurrences(words, "blocked"@) + occurrences(words, "completed"@) + occurrences(
        words,
        "done"@,
    ) + occurrences(words, "cancelled"@)) by {
        reveal_with_fuel(occurrences_of_all, 7);
        assert(keys.drop_last() =~= seq![
            "in-progress"@,
            "in_progress"@,
            "blocked"@,
            "completed"@,
            "done"@,
        ]);
        assert(keys.drop_last().drop_last() =~= seq![
            "in-progress"@,
            "in_progress"@,
            "blocked"@,
            "completed"@,
        ]);
        assert(keys.drop_last().drop_last().drop_last() =~= seq![
            "in-progress"@,
            "in_progress"@,
            "blocked"@,
        ]);
    }
    let in_progress = occurrences(words, "in-progress"@) + occurrences(words, "in_progress"@);
    let blocked = occurrences(words, "blocked"@);
    let completed = occurrences(words, "completed"@) + occurrences(words, "done"@) + occurrences(
        words,
        "cancelled"@,
    );
    let statistics = statistics_of(tasks);
    assert(statistics.field("in_progress"@) == Some(count(in_progress)));
    assert(statistics.field("blocked"@) == Some(count(blocked)));
    assert(statistics.field("completed"@) == Some(count(completed)));
}

} // verus!
