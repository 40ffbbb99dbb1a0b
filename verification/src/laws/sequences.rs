//! Facts about filtered sequences.
use vstd::prelude::*;

verus! {

/// Filtering keeps exactly the items that pass, and makes no duplicates.
pub proof fn lemma_filter<A>(s: Seq<A>, pass: spec_fn(A) -> bool)
    ensures
        forall|x: A| #[trigger] s.filter(pass).contains(x) == (s.contains(x) && pass(x)),
        s.no_duplicates() ==> s.filter(pass).no_duplicates(),
    decreases s.len(),
{
    broadcast use vstd::seq_lib::group_seq_properties;

    reveal(Seq::filter);
    if s.len() > 0 {
        let rest = s.drop_last();
        lemma_filter(rest, pass);
        assert(s == rest.push(s.last()));
        assert forall|x: A| #[trigger] s.filter(pass).contains(x) == (s.contains(x) && pass(x)) by {
            assert(rest.filter(pass).contains(x) == (rest.contains(x) && pass(x)));
        }
        if s.no_duplicates() {
            assert(rest.no_duplicates());
            assert(!rest.contains(s.last()));
            let kept = rest.filter(pass);
            assert(!kept.contains(s.last()));
            assert forall|i: int, j: int|
                0 <= i < j < s.filter(pass).len() implies s.filter(pass)[i] != s.filter(pass)[j] by {
                if j < kept.len() {
                    assert(kept[i] != kept[j]);
                } else {
                    assert(kept.contains(kept[i]));
                }
            }
        }
    }
}

} // verus!
