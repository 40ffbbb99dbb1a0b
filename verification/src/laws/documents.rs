//! Documents: what is read from them, and what setting and unsetting a member does.
use crate::value::{members_of, or_else, Json, JsonNumber};
use vstd::prelude::*;

verus! {

/// Only an object has members, and it has those that it holds; only a string is a text, only a
/// boolean a flag, only an array has items, and only a number without a sign is a count.
pub proof fn members_are_read_by_their_kind(
    document: Json,
    members: Map<Seq<char>, Json>,
    key: Seq<char>,
    inner: Seq<char>,
)
    ensures
        Json::Object(members).field(key) == (if members.contains_key(key) {
            Some(members[key])
        } else {
            None
        }),
        !(document is Object) ==> document.field(key) is None,
        document.text(key) == (match document.field(key) {
            Some(Json::String(text)) => Some(text),
            _ => None,
        }),
        document.flag(key) == (match document.field(key) {
            Some(Json::Bool(flag)) => Some(flag),
            _ => None,
        }),
        document.items(key) == (match document.field(key) {
            Some(Json::Array(items)) => Some(items),
            _ => None,
        }),
        document.nested(key, inner) == (match document.field(key) {
            Some(Json::Object(nested)) => if nested.contains_key(inner) {
                Some(nested[inner])
            } else {
                None
            },
            _ => None,
        }),
        document.as_u64() == (match document {
            Json::Number(JsonNumber::PosInt(n)) => Some(n),
            _ => None,
        }),
{
}

/// A member that was set is there and one that was unset is not; the others stay. A document that
/// is no object stays as it is.
pub proof fn members_are_set_and_unset(document: Json, key: Seq<char>, value: Json, other: Seq<char>)
    ensures
        document is Object ==> document.with(key, value) is Object && document.with(
            key,
            value,
        ).field(key) == Some(value),
        document is Object ==> document.without(key) is Object && document.without(key).field(
            key,
        ) is None,
        other != key ==> document.with(key, value).field(other) == document.field(other),
        other != key ==> document.without(key).field(other) == document.field(other),
        !(document is Object) ==> document.with(key, value) == document,
        !(document is Object) ==> document.without(key) == document,
{
}

/// What is found counts before what stands in for it.
pub proof fn what_is_found_counts<T>(value: T, otherwise: T)
    ensures
        or_else(Some(value), otherwise) == value,
        or_else(None, otherwise) == otherwise,
{
}

/// Of several pairs with one key the last one counts, and a key without a pair has no member.
pub proof fn last_pairs_count(pairs: Seq<(Seq<char>, Json)>, place: int, key: Seq<char>)
    ensures
        0 <= place < pairs.len() && pairs[place].0 == key && (forall|i: int|
            place < i < pairs.len() ==> (#[trigger] pairs[i]).0 != key) ==> members_of(
            pairs,
        ).contains_key(key) && members_of(pairs)[key] == pairs[place].1,
        (forall|i: int| 0 <= i < pairs.len() ==> (#[trigger] pairs[i]).0 != key) ==> !members_of(
            pairs,
        ).contains_key(key),
    decreases pairs.len(),
{
    if pairs.len() > 0 {
        let rest = pairs.drop_last();
        last_pairs_count(rest, place, key);
        assert(forall|i: int| 0 <= i < rest.len() ==> #[trigger] rest[i] == pairs[i]);
        assert(pairs.last() == pairs[pairs.len() - 1]);
    }
}

} // verus!
