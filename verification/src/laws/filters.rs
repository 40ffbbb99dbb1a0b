//! Subject listings, told from the members of the filter and of the subjects.
use crate::backend::{
    admitted, admits, facts_of, overlap, selected, FactsModel, SubjectFilter, SubjectStatus,
};
use crate::laws::labels::{strings_of_a_member_are_read, words};
use crate::laws::names::lemma_names;
use crate::laws::subjects::selection_is_complete;
use crate::value::{string_views, Json};
use vstd::prelude::*;

verus! {

/// Whether a word is one of several strings.
pub open spec fn among(strings: Seq<String>, word: Seq<char>) -> bool {
    exists|i: int| 0 <= i < strings.len() && (#[trigger] strings[i])@ == word
}

proof fn lemma_among(strings: Seq<String>, word: Seq<char>)
    ensures
        among(strings, word) == string_views(strings).contains(word),
{
    let views = string_views(strings);
    if among(strings, word) {
        let i = choose|i: int| 0 <= i < strings.len() && (#[trigger] strings[i])@ == word;
        assert(views[i] == word);
    }
    if views.contains(word) {
        let i = choose|i: int| 0 <= i < views.len() && views[i] == word;
        assert(strings[i]@ == word);
    }
}

/// Whether a word is one of a sequence, at some place.
pub open spec fn has_word(words: Seq<Seq<char>>, word: Seq<char>) -> bool {
    exists|i: int| 0 <= i < words.len() && #[trigger] words[i] == word
}

/// A subject that a listing shows has everything that the filter asks for: one of the statuses,
/// one of the kinds, one of the labels of `labels_any`, every label of `labels_all`, one of the
/// native statuses, one of the dispatch labels and one of the kinds of attachment, each as far as
/// the filter names any.
pub proof fn shown_subjects_have_all_that_is_asked(
    subjects: Seq<FactsModel>,
    filter: SubjectFilter,
    k: int,
)
    requires
        0 <= k < selected(subjects, filter).len(),
    ensures
        0 <= selected(subjects, filter)[k] < subjects.len(),
        ({
            let subject = subjects[selected(subjects, filter)[k]];
            &&& filter.status@.len() > 0 ==> exists|i: int|
                0 <= i < filter.status@.len() && #[trigger] filter.status@[i] == subject.status
            &&& filter.kind@.len() > 0 ==> among(filter.kind@, subject.kind)
            &&& filter.labels_any@.len() > 0 ==> exists|i: int|
                0 <= i < subject.labels.len() && among(
                    filter.labels_any@,
                    #[trigger] subject.labels[i],
                )
            &&& forall|i: int|
                0 <= i < filter.labels_all@.len() ==> has_word(
                    subject.labels,
                    (#[trigger] filter.labels_all@[i])@,
                )
            &&& filter.native_status@.len() > 0 ==> among(
                filter.native_status@,
                subject.native_status,
            )
            &&& filter.dispatch_label@.len() > 0 ==> (subject.dispatch_label matches Some(label)
                && among(filter.dispatch_label@, label))
            &&& filter.has_attachment_kind@.len() > 0 ==> exists|i: int|
                0 <= i < subject.attachment_kinds.len() && among(
                    filter.has_attachment_kind@,
                    #[trigger] subject.attachment_kinds[i],
                )
        }),
{
    selection_is_complete(subjects, filter);
    let place = selected(subjects, filter)[k];
    let subject = subjects[place];
    assert(admits(filter, subject));
    lemma_among(filter.kind@, subject.kind);
    lemma_among(filter.native_status@, subject.native_status);
    if subject.dispatch_label is Some {
        lemma_among(filter.dispatch_label@, subject.dispatch_label->0);
    }
    if filter.labels_any@.len() > 0 {
        lemma_overlap(subject.labels, filter.labels_any@);
    }
    if filter.has_attachment_kind@.len() > 0 {
        lemma_overlap(subject.attachment_kinds, filter.has_attachment_kind@);
    }
    let all = string_views(filter.labels_all@);
    assert forall|i: int| 0 <= i < filter.labels_all@.len() implies has_word(
        subject.labels,
        (#[trigger] filter.labels_all@[i])@,
    ) by {
        assert(all[i] == filter.labels_all@[i]@);
        assert(subject.labels.contains(all[i]));
        let j = choose|j: int| 0 <= j < subject.labels.len() && subject.labels[j] == all[i];
        assert(subject.labels[j] == filter.labels_all@[i]@);
    }
}

proof fn lemma_overlap(words: Seq<Seq<char>>, wanted: Seq<String>)
    ensures
        overlap(words, string_views(wanted)) == exists|i: int|
            0 <= i < words.len() && among(wanted, #[trigger] words[i]),
{
    if overlap(words, string_views(wanted)) {
        let i = choose|i: int|
            0 <= i < words.len() && string_views(wanted).contains(#[trigger] words[i]);
        lemma_among(wanted, words[i]);
        assert(among(wanted, words[i]));
    }
    if exists|i: int| 0 <= i < words.len() && among(wanted, #[trigger] words[i]) {
        let i = choose|i: int| 0 <= i < words.len() && among(wanted, #[trigger] words[i]);
        lemma_among(wanted, words[i]);
        assert(string_views(wanted).contains(words[i]));
    }
}

/// A subject that has everything that the filter asks for is shown, where the limit leaves room
/// for every subject.
pub proof fn subjects_with_all_that_is_asked_are_shown(
    subjects: Seq<FactsModel>,
    filter: SubjectFilter,
    place: int,
)
    requires
        0 <= place < subjects.len(),
        subjects.len() <= (match filter.limit {
            Some(n) => n,
            None => u32::MAX,
        }),
        filter.status@.len() > 0 ==> exists|i: int|
            0 <= i < filter.status@.len() && #[trigger] filter.status@[i] == subjects[place].status,
        filter.kind@.len() > 0 ==> among(filter.kind@, subjects[place].kind),
        filter.labels_any@.len() > 0 ==> exists|i: int|
            0 <= i < subjects[place].labels.len() && among(
                filter.labels_any@,
                #[trigger] subjects[place].labels[i],
            ),
        forall|i: int|
            0 <= i < filter.labels_all@.len() ==> has_word(
                subjects[place].labels,
                (#[trigger] filter.labels_all@[i])@,
            ),
        filter.native_status@.len() > 0 ==> among(
            filter.native_status@,
            subjects[place].native_status,
        ),
        filter.dispatch_label@.len() > 0 ==> (subjects[place].dispatch_label matches Some(label)
            && among(filter.dispatch_label@, label)),
        filter.has_attachment_kind@.len() > 0 ==> exists|i: int|
            0 <= i < subjects[place].attachment_kinds.len() && among(
                filter.has_attachment_kind@,
                #[trigger] subjects[place].attachment_kinds[i],
            ),
    ensures
        selected(subjects, filter).contains(place),
{
    let subject = subjects[place];
    lemma_among(filter.kind@, subject.kind);
    lemma_among(filter.native_status@, subject.native_status);
    if subject.dispatch_label is Some {
        lemma_among(filter.dispatch_label@, subject.dispatch_label->0);
    }
    lemma_overlap(subject.labels, filter.labels_any@);
    lemma_overlap(subject.attachment_kinds, filter.has_attachment_kind@);
    let all = string_views(filter.labels_all@);
    assert forall|i: int| 0 <= i < all.len() implies subject.labels.contains(#[trigger] all[i]) by {
        assert(all[i] == filter.labels_all@[i]@);
        assert(has_word(subject.labels, filter.labels_all@[i]@));
    }
    assert(admits(filter, subject));
    lemma_admitted_bound(subjects, filter);
    assert(selected(subjects, filter) == admitted(subjects, filter));
    lemma_admitted_holds(subjects, filter, place);
}

proof fn lemma_admitted_bound(subjects: Seq<FactsModel>, filter: SubjectFilter)
    ensures
        admitted(subjects, filter).len() <= subjects.len(),
    decreases subjects.len(),
{
    if subjects.len() > 0 {
        lemma_admitted_bound(subjects.drop_last(), filter);
    }
}

proof fn lemma_admitted_holds(subjects: Seq<FactsModel>, filter: SubjectFilter, place: int)
    requires
        0 <= place < subjects.len(),
        admits(filter, subjects[place]),
    ensures
        admitted(subjects, filter).contains(place),
    decreases subjects.len(),
{
    let rest = subjects.drop_last();
    let all = admitted(subjects, filter);
    if place < rest.len() {
        lemma_admitted_holds(rest, filter, place);
        let before = admitted(rest, filter);
        let k = choose|k: int| 0 <= k < before.len() && before[k] == place;
        assert(all[k] == place);
    } else {
        assert(all[all.len() - 1] == place);
    }
}

/// A listing shows no more subjects than its limit, and the first ones: before each that it shows
/// it leaves out only subjects that do not have what is asked for.
pub proof fn limits_cut_off_the_end(
    subjects: Seq<FactsModel>,
    filter: SubjectFilter,
    wider: SubjectFilter,
)
    requires
        wider.status == filter.status,
        wider.kind == filter.kind,
        wider.labels_any == filter.labels_any,
        wider.labels_all == filter.labels_all,
        wider.native_status == filter.native_status,
        wider.dispatch_label == filter.dispatch_label,
        wider.has_attachment_kind == filter.has_attachment_kind,
        wider.limit is None,
        subjects.len() <= u32::MAX,
    ensures
        filter.limit matches Some(n) ==> selected(subjects, filter).len() <= n,
        filter.limit matches Some(n) ==> (selected(subjects, wider).len() <= n ==> selected(
            subjects,
            filter,
        ) == selected(subjects, wider)),
        filter.limit matches Some(n) ==> (selected(subjects, wider).len() > n ==> selected(
            subjects,
            filter,
        ).len() == n),
        selected(subjects, filter).is_prefix_of(selected(subjects, wider)),
{
    lemma_admitted_bound(subjects, filter);
    lemma_same_demands(subjects, filter, wider);
}

proof fn lemma_same_demands(subjects: Seq<FactsModel>, filter: SubjectFilter, wider: SubjectFilter)
    requires
        wider.status == filter.status,
        wider.kind == filter.kind,
        wider.labels_any == filter.labels_any,
        wider.labels_all == filter.labels_all,
        wider.native_status == filter.native_status,
        wider.dispatch_label == filter.dispatch_label,
        wider.has_attachment_kind == filter.has_attachment_kind,
    ensures
        admitted(subjects, filter) == admitted(subjects, wider),
    decreases subjects.len(),
{
    if subjects.len() > 0 {
        lemma_same_demands(subjects.drop_last(), filter, wider);
    }
}

/// What a filter looks at in a task is what the task has: the normalized form of its status,
/// `backlog` where it has none, the kind `task`, the strings of its tags and the status itself.
pub proof fn facts_are_those_of_the_task(task: Json)
    ensures
        facts_of(task).kind == "task"@,
        facts_of(task).labels == words(task.field("tags"@)),
        facts_of(task).native_status == (match task.field("status"@) {
            Some(Json::String(status)) => status,
            _ => "backlog"@,
        }),
        ({
            let native = facts_of(task).native_status;
            &&& native == "in-progress"@ || native == "in_progress"@ ==> facts_of(task).status
                == SubjectStatus::InProgress
            &&& native == "blocked"@ ==> facts_of(task).status == SubjectStatus::Blocked
            &&& native == "completed"@ || native == "done"@ ==> facts_of(task).status
                == SubjectStatus::Done
            &&& native == "cancelled"@ ==> facts_of(task).status == SubjectStatus::Cancelled
            &&& native != "in-progress"@ && native != "in_progress"@ && native != "blocked"@
                && native != "completed"@ && native != "done"@ && native != "cancelled"@
                ==> facts_of(task).status == SubjectStatus::Ready
        }),
        facts_of(task).dispatch_label is None,
        facts_of(task).attachment_kinds.len() == 0,
{
    lemma_names();
    strings_of_a_member_are_read(task, "tags"@);
}

} // verus!
