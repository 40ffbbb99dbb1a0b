//! Routes, watches and settings.
use crate::config::setting;
use crate::laws::methods::each_method_has_its_step;
use crate::server::{
    advertised, key_of, method_parts, method_unknown, routed, served_methods, slash_at, with_marker,
    RouteModel, StandardModel,
};
use crate::text::{decimal, stripped};
use crate::value::{Json, JsonNumber};
use vstd::prelude::*;
use vstd::string::*;

verus! {

/// Whether a text has no slash.
pub open spec fn slashless(s: Seq<char>) -> bool {
    forall|i: int| 0 <= i < s.len() ==> #[trigger] s[i] != '/'
}

proof fn lemma_slash_at(kind: Seq<char>, rest: Seq<char>)
    requires
        slashless(kind),
        rest.len() > 0 ==> rest[0] == '/',
    ensures
        slash_at(kind + rest) == kind.len(),
    decreases kind.len(),
{
    let method = kind + rest;
    if kind.len() > 0 {
        assert(method.skip(1) == kind.skip(1) + rest);
        assert(method[0] == kind[0]);
        assert forall|i: int| 0 <= i < kind.skip(1).len() implies #[trigger] kind.skip(1)[i]
            != '/' by {
            assert(kind.skip(1)[i] == kind[i + 1]);
        }
        lemma_slash_at(kind.skip(1), rest);
    } else {
        assert(method == rest);
    }
}

/// A method is taken apart at its first slash; `subject` stands for any kind, and so does a method
/// without a slash.
pub proof fn methods_are_split_at_the_first_slash(kind: Seq<char>, verb: Seq<char>)
    requires
        slashless(kind),
    ensures
        method_parts(kind + "/"@ + verb) == (if kind == "subject"@ {
            ""@
        } else {
            kind
        }, verb),
        method_parts(kind) == (""@, kind),
{
    reveal_strlit("/");
    let method = kind + "/"@ + verb;
    assert(method == kind + ("/"@ + verb));
    lemma_slash_at(kind, "/"@ + verb);
    lemma_slash_at(kind, Seq::empty());
    assert(kind + Seq::<char>::empty() == kind);
    assert(method.take(kind.len() as int) == kind);
    assert(method.skip(kind.len() as int + 1) == verb);
}

proof fn lemma_literals()
    ensures
        slashless("task"@),
        slashless("subject"@),
        "task/schema"@ == "task"@ + "/"@ + "schema"@,
        "subject/list"@ == "subject"@ + "/"@ + "list"@,
        "subject/get"@ == "subject"@ + "/"@ + "get"@,
        "subject/update"@ == "subject"@ + "/"@ + "update"@,
        "subject/schema"@ == "subject"@ + "/"@ + "schema"@,
        "task/list"@[0] != "subject/list"@[0],
        "task/list_filtered"@[0] != "subject/list"@[0],
        "task/list_prioritized"@[0] != "subject/list"@[0],
        "task/get"@[0] != "subject/list"@[0],
        "task/create"@[0] != "subject/list"@[0],
        "task/update"@[0] != "subject/list"@[0],
        "task/replace"@[0] != "subject/list"@[0],
        "task/delete"@[0] != "subject/list"@[0],
        "task/statistics"@[0] != "subject/list"@[0],
        "task/assign"@[0] != "subject/list"@[0],
        "task/status"@[0] != "subject/list"@[0],
        "task/next"@[0] != "subject/list"@[0],
        "task/add_checklist_item"@[0] != "subject/list"@[0],
        "task/update_checklist_item"@[0] != "subject/list"@[0],
        "task/add_dependency"@[0] != "subject/list"@[0],
        "task/remove_dependency"@[0] != "subject/list"@[0],
{
    reveal_strlit("task");
    reveal_strlit("subject");
    reveal_strlit("/");
    reveal_strlit("list");
    reveal_strlit("get");
    reveal_strlit("update");
    reveal_strlit("schema");
    reveal_strlit("task/schema");
    assert("task/schema"@ =~= "task"@ + "/"@ + "schema"@);
    reveal_strlit("subject/list");
    assert("subject/list"@ =~= "subject"@ + "/"@ + "list"@);
    reveal_strlit("subject/get");
    assert("subject/get"@ =~= "subject"@ + "/"@ + "get"@);
    reveal_strlit("subject/update");
    assert("subject/update"@ =~= "subject"@ + "/"@ + "update"@);
    reveal_strlit("subject/schema");
    assert("subject/schema"@ =~= "subject"@ + "/"@ + "schema"@);
    reveal_strlit("task/list");
    reveal_strlit("task/list_filtered");
    reveal_strlit("task/list_prioritized");
    reveal_strlit("task/get");
    reveal_strlit("task/create");
    reveal_strlit("task/update");
    reveal_strlit("task/replace");
    reveal_strlit("task/delete");
    reveal_strlit("task/statistics");
    reveal_strlit("task/assign");
    reveal_strlit("task/status");
    reveal_strlit("task/next");
    reveal_strlit("task/add_checklist_item");
    reveal_strlit("task/update_checklist_item");
    reveal_strlit("task/add_dependency");
    reveal_strlit("task/remove_dependency");
}

/// Every method that the plugin names is served: none is answered as not implemented.
pub proof fn served_methods_are_routed(i: int, params: Option<Json>)
    requires
        0 <= i < served_methods().len(),
    ensures
        routed(served_methods()[i], params) != RouteModel::Standard(
            StandardModel::Refused(method_unknown(served_methods()[i])),
        ),
{
    lemma_literals();
    each_method_has_its_step(params);
    methods_are_split_at_the_first_slash("task"@, "schema"@);
    methods_are_split_at_the_first_slash("subject"@, "list"@);
    methods_are_split_at_the_first_slash("subject"@, "get"@);
    methods_are_split_at_the_first_slash("subject"@, "update"@);
    methods_are_split_at_the_first_slash("subject"@, "schema"@);
}

/// A method that starts with `$/` is a notification and gets no reply; only `$/ping` does.
pub proof fn notifications_get_no_reply(method: Seq<char>, params: Option<Json>)
    requires
        "$/"@.is_prefix_of(method),
        method != "$/ping"@,
    ensures
        routed(method, params) == RouteModel::Silent,
{
    reveal_strlit("$/");
    reveal_strlit("initialize");
    reveal_strlit("shutdown");
    reveal_strlit("health/check");
    assert(method[0] == "$/"@[0]);
}

/// The kind of a method that starts with a kind and a slash.
pub proof fn lemma_kind(kind: Seq<char>, verb: Seq<char>, start: Seq<char>)
    requires
        slashless(kind),
        slashless(start),
        (start + "/"@).is_prefix_of(kind + "/"@ + verb),
    ensures
        kind == start,
{
    reveal_strlit("/");
    let method = kind + "/"@ + verb;
    let rest = method.skip(start.len() as int);
    assert(method == kind + ("/"@ + verb));
    assert((start + "/"@)[start.len() as int] == '/');
    assert(method.subrange(0, start.len() as int + 1)[start.len() as int] == method[start.len() as int]);
    assert(rest[0] == '/');
    assert forall|i: int| 0 <= i < start.len() implies start[i] == #[trigger] method[i] by {
        assert(method.subrange(0, start.len() as int + 1)[i] == (start + "/"@)[i]);
    }
    assert(method =~= start + rest);
    lemma_slash_at(kind, "/"@ + verb);
    lemma_slash_at(start, rest);
    assert(kind.len() == start.len());
    assert forall|i: int| 0 <= i < kind.len() implies kind[i] == start[i] by {
        assert(method[i] == kind[i]);
    }
    assert(kind =~= start);
}

/// A method has a slash where its kind ends.
pub proof fn lemma_not_slashless(kind: Seq<char>, verb: Seq<char>)
    ensures
        !slashless(kind + "/"@ + verb),
{
    reveal_strlit("/");
    assert((kind + "/"@ + verb)[kind.len() as int] == '/');
}

/// The methods of the lifecycle, and the kinds of the others.
pub proof fn lemma_special_methods()
    ensures
        slashless("initialize"@),
        slashless("initialized"@),
        slashless("shutdown"@),
        slashless("$"@),
        slashless("health"@),
        "$"@ + "/"@ == "$/"@,
        "task"@ + "/"@ == "task/"@,
        ("$"@ + "/"@).is_prefix_of("$/ping"@),
        ("health"@ + "/"@).is_prefix_of("health/check"@),
        ("task"@ + "/"@).is_prefix_of("task/delete"@),
        ("task"@ + "/"@).is_prefix_of("task/watch"@),
        ("task"@ + "/"@).is_prefix_of("task/unwatch"@),
        ("subject"@ + "/"@).is_prefix_of("subject/delete"@),
        ("subject"@ + "/"@).is_prefix_of("subject/watch"@),
        ("subject"@ + "/"@).is_prefix_of("subject/unwatch"@),
        ("subject"@ + "/"@).is_prefix_of("subject/list"@),
{
    reveal_strlit("/");
    reveal_strlit("$");
    reveal_strlit("$/");
    reveal_strlit("$/ping");
    reveal_strlit("task");
    reveal_strlit("task/");
    reveal_strlit("subject");
    reveal_strlit("health");
    reveal_strlit("health/check");
    reveal_strlit("initialize");
    reveal_strlit("initialized");
    reveal_strlit("shutdown");
    assert("$"@ + "/"@ =~= "$/"@);
    assert("task"@ + "/"@ =~= "task/"@);
    assert("$/ping"@.subrange(0, 2) =~= "$"@ + "/"@);
    assert("health/check"@.subrange(0, 7) =~= "health"@ + "/"@);
    reveal_strlit("task/delete");
    assert("task/delete"@.subrange(0, 5) =~= "task"@ + "/"@);
    reveal_strlit("task/watch");
    assert("task/watch"@.subrange(0, 5) =~= "task"@ + "/"@);
    reveal_strlit("task/unwatch");
    assert("task/unwatch"@.subrange(0, 5) =~= "task"@ + "/"@);
    reveal_strlit("subject/delete");
    assert("subject/delete"@.subrange(0, 8) =~= "subject"@ + "/"@);
    reveal_strlit("subject/watch");
    assert("subject/watch"@.subrange(0, 8) =~= "subject"@ + "/"@);
    reveal_strlit("subject/unwatch");
    assert("subject/unwatch"@.subrange(0, 8) =~= "subject"@ + "/"@);
    reveal_strlit("subject/list");
    assert("subject/list"@.subrange(0, 8) =~= "subject"@ + "/"@);
}

/// A verb of a kind that the plugin does not know is answered as not implemented, unless it is one
/// of the standard ones.
pub proof fn foreign_verbs_are_not_found(kind: Seq<char>, verb: Seq<char>, params: Option<Json>)
    requires
        slashless(kind),
        kind != "task"@,
        kind != "subject"@,
        kind != "health"@,
        kind != "$"@,
        verb != "list"@,
        verb != "get"@,
        verb != "update"@,
        verb != "schema"@,
    ensures
        routed(kind + "/"@ + verb, params) == RouteModel::Standard(
            StandardModel::Refused(method_unknown(kind + "/"@ + verb)),
        ),
{
    let method = kind + "/"@ + verb;
    lemma_literals();
    lemma_special_methods();
    lemma_not_slashless(kind, verb);
    methods_are_split_at_the_first_slash(kind, verb);
    if ("task"@ + "/"@).is_prefix_of(method) {
        lemma_kind(kind, verb, "task"@);
    }
    if ("subject"@ + "/"@).is_prefix_of(method) {
        lemma_kind(kind, verb, "subject"@);
    }
    if ("health"@ + "/"@).is_prefix_of(method) {
        lemma_kind(kind, verb, "health"@);
    }
    if ("$"@ + "/"@).is_prefix_of(method) {
        lemma_kind(kind, verb, "$"@);
    }
    assert(stripped(method, "task/"@) is None);
}

/// The plugin names the marker of its kind, so that its manifest names it once.
pub proof fn marker_is_advertised()
    ensures
        advertised().contains("subject_kind:task"@),
        with_marker(advertised()) == advertised(),
{
    assert(advertised().last() == "subject_kind:task"@);
    assert(advertised()[advertised().len() - 1] == "subject_kind:task"@);
}

/// The text of a whole number, as a client writes it to end a watch, is the key that the number
/// itself started the watch under.
pub proof fn numeric_watch_ids_match_their_text(
    n: u64,
    rendered: Seq<char>,
    rendered_text: Seq<char>,
)
    ensures
        key_of(Some(Json::Number(JsonNumber::PosInt(n))), rendered) == key_of(
            Some(Json::String(decimal(n as nat))),
            rendered_text,
        ),
{
}

/// Stopping a watch undoes starting it; stopping one that does not run changes nothing.
pub proof fn stopping_undoes_starting(watches: Map<Seq<char>, u64>, key: Seq<char>, number: u64)
    ensures
        watches.insert(key, number).contains_key(key),
        watches.insert(key, number)[key] == number,
        watches.insert(key, number).remove(key) == watches.remove(key),
        !watches.contains_key(key) ==> watches.remove(key) == watches,
{
    assert(watches.insert(key, number).remove(key) =~= watches.remove(key));
    assert(!watches.contains_key(key) ==> watches.remove(key) =~= watches);
}

/// A setting that is empty is a setting that is not there.
pub proof fn empty_settings_are_unset()
    ensures
        setting(Some(Seq::empty())) == setting(None),
{
}

} // verus!
