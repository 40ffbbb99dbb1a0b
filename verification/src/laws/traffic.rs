//! What comes in and goes out, told from the lines, the methods and the parameters.
use crate::laws::labels::{array_of, strings_are_written_in_order};
use crate::laws::names::lemma_names;
use crate::laws::priorities::trimming_takes_white_space_off_the_ends;
use crate::laws::refusals::{is_blank, unusable, white_space_around_text_goes};
use crate::laws::routes::{
    lemma_kind, lemma_not_slashless, lemma_special_methods, methods_are_split_at_the_first_slash,
    slashless,
};
use crate::rpc::{ErrorCode, Fault};
use crate::server::{
    is_manifest_flag, key_of, manifest_of, method_parts, method_unknown, notification, request_in,
    routed, standard_request, variables, Identity, RouteModel, StandardModel,
};
use crate::text::{decimal, is_white_space, stripped};
use crate::value::{Json, JsonNumber};
use vstd::prelude::*;
use vstd::string::*;

verus! {

/// A blank line holds no request; any other one holds what stands between the white space at its
/// ends.
pub proof fn lines_hold_what_stands_between_white_space(
    before: Seq<char>,
    text: Seq<char>,
    after: Seq<char>,
)
    requires
        is_blank(before),
        is_blank(after),
        text.len() > 0,
        !is_white_space(text[0]),
        !is_white_space(text.last()),
    ensures
        request_in(before + text + after) == Some(text),
        request_in(before) is None,
{
    white_space_around_text_goes(before, text, after);
}

/// Every line is blank, or its request begins and ends with something else than white space.
pub proof fn lines_are_blank_or_hold_a_request(line: Seq<char>)
    ensures
        request_in(line) is None <==> is_blank(line),
        request_in(line) matches Some(text) ==> text.len() > 0 && !is_white_space(text[0])
            && !is_white_space(text.last()),
{
    let ends = trimming_takes_white_space_off_the_ends(line);
    if is_blank(line) && ends.0 < ends.1 {
        assert(is_white_space(line[ends.0]));
    }
    if ends.0 == ends.1 {
        assert forall|i: int| 0 <= i < line.len() implies is_white_space(#[trigger] line[i]) by {
            assert(i < ends.0 || ends.1 <= i);
        }
    }
}

/// The methods of the lifecycle are answered as such, whatever their parameters: `initialize` tells
/// of the plugin, `$/ping` and `shutdown` are acknowledged, `initialized` gets no reply, and
/// `health/check` tells of the backend. A watch is started by `subject/watch` or `task/watch`, and
/// stopped, under the `watch_id` of the parameters, by `subject/unwatch` or `task/unwatch`.
pub proof fn special_methods_have_their_routes(params: Option<Json>)
    ensures
        routed("initialize"@, params) == RouteModel::Initialize,
        routed("initialized"@, params) == RouteModel::Silent,
        routed("$/ping"@, params) == RouteModel::Acknowledge,
        routed("shutdown"@, params) == RouteModel::Acknowledge,
        routed("health/check"@, params) == RouteModel::Health,
        routed("subject/watch"@, params) == RouteModel::Watch,
        routed("task/watch"@, params) == RouteModel::Watch,
        routed("subject/unwatch"@, params) == RouteModel::Unwatch(
            match params {
                Some(p) => match p.field("watch_id"@) {
                    Some(Json::String(id)) => Some(id),
                    _ => None,
                },
                None => None,
            },
        ),
        routed("task/unwatch"@, params) == routed("subject/unwatch"@, params),
{
    reveal_strlit("initialize");
    reveal_strlit("initialized");
    reveal_strlit("$/ping");
    reveal_strlit("$/");
    reveal_strlit("shutdown");
    reveal_strlit("health/check");
    reveal_strlit("subject/watch");
    reveal_strlit("task/watch");
    reveal_strlit("subject/unwatch");
    reveal_strlit("task/unwatch");
    reveal_strlit("task/delete");
    reveal_strlit("subject/delete");
    assert("initialize"@.len() == 10 && "initialized"@.len() == 11);
    assert("$/ping"@[0] == '$' && "shutdown"@[0] == 's' && "health/check"@[0] == 'h');
    assert("shutdown"@.len() == 8);
    assert("subject/watch"@[0] == 's' && "subject/watch"@.len() == 13);
    assert("subject/unwatch"@[0] == 's' && "subject/unwatch"@.len() == 15);
    assert("subject/delete"@[0] == 's' && "subject/delete"@.len() == 14);
    assert("task/watch"@[0] == 't' && "task/watch"@.len() == 10);
    assert("task/unwatch"@[0] == 't' && "task/unwatch"@.len() == 12);
    assert("task/delete"@[0] == 't' && "task/delete"@.len() == 11);
    assert("initialize"@[0] == 'i' && "initialized"@[0] == 'i');
    assert("$/"@[0] == '$');
    assert(!"$/"@.is_prefix_of("subject/watch"@));
    assert(!"$/"@.is_prefix_of("subject/unwatch"@));
    assert(!"$/"@.is_prefix_of("task/watch"@));
    assert(!"$/"@.is_prefix_of("task/unwatch"@));
}

/// The verbs `list`, `get`, `update` and `schema` of any kind but the library's own are the
/// standard ones. A listing goes by the member `filter` of the parameters, or by the parameters
/// themselves; `get` and `update` need a string `id`, which is handed on as it is, and an update
/// goes by the member `patch`.
pub proof fn standard_verbs_go_by_their_parameters(kind: Seq<char>, params: Option<Json>)
    requires
        slashless(kind),
        kind != "task"@,
        kind != "health"@,
        kind != "$"@,
    ensures
        routed(kind + "/"@ + "list"@, params) == RouteModel::Standard(
            StandardModel::List {
                filter: match params {
                    Some(p) => match p.field("filter"@) {
                        Some(filter) => Some(filter),
                        None => Some(p),
                    },
                    None => None,
                },
            },
        ),
        routed(kind + "/"@ + "get"@, params) == RouteModel::Standard(
            match params {
                Some(p) => match p.field("id"@) {
                    Some(Json::String(id)) => StandardModel::Get { id },
                    _ => StandardModel::Refused(unusable("subject/get"@ + " requires id"@)),
                },
                None => StandardModel::Refused(unusable("subject/get"@ + " requires id"@)),
            },
        ),
        routed(kind + "/"@ + "update"@, params) == RouteModel::Standard(
            match params {
                Some(p) => match p.field("id"@) {
                    Some(Json::String(id)) => StandardModel::Update {
                        id,
                        patch: p.field("patch"@),
                    },
                    _ => StandardModel::Refused(unusable("subject/update"@ + " requires id"@)),
                },
                None => StandardModel::Refused(unusable("subject/update"@ + " requires id"@)),
            },
        ),
        routed(kind + "/"@ + "schema"@, params) == RouteModel::Standard(StandardModel::Schema),
{
    lemma_standard_route(kind, "list"@, params);
    lemma_standard_route(kind, "get"@, params);
    lemma_standard_route(kind, "update"@, params);
    lemma_standard_route(kind, "schema"@, params);
    reveal_strlit("list");
    reveal_strlit("get");
    reveal_strlit("update");
    reveal_strlit("schema");
    assert("list"@.len() == 4 && "get"@.len() == 3);
    assert("update"@[0] != "schema"@[0] && "update"@.len() == 6 && "schema"@.len() == 6);
}

/// A verb that the lifecycle and the task surface leave over goes to the standard ones.
proof fn lemma_standard_route(kind: Seq<char>, verb: Seq<char>, params: Option<Json>)
    requires
        slashless(kind),
        kind != "task"@,
        kind != "health"@,
        kind != "$"@,
        verb == "list"@ || verb == "get"@ || verb == "update"@ || verb == "schema"@,
    ensures
        routed(kind + "/"@ + verb, params) == RouteModel::Standard(
            standard_request(kind + "/"@ + verb, params),
        ),
        method_parts(kind + "/"@ + verb).1 == verb,
{
    let method = kind + "/"@ + verb;
    lemma_special_methods();
    lemma_not_slashless(kind, verb);
    methods_are_split_at_the_first_slash(kind, verb);
    reveal_strlit("task");
    if ("task"@ + "/"@).is_prefix_of(method) {
        lemma_kind(kind, verb, "task"@);
    }
    if ("health"@ + "/"@).is_prefix_of(method) {
        lemma_kind(kind, verb, "health"@);
    }
    if ("$"@ + "/"@).is_prefix_of(method) {
        lemma_kind(kind, verb, "$"@);
    }
    assert(stripped(method, "task/"@) is None);
    if method == "subject/delete"@ {
        lemma_subject_verb(kind, verb, "delete"@);
    }
    if method == "subject/watch"@ {
        lemma_subject_verb(kind, verb, "watch"@);
    }
    if method == "subject/unwatch"@ {
        lemma_subject_verb(kind, verb, "unwatch"@);
    }
}

/// Three verbs that no standard one is.
proof fn lemma_subject_verb(kind: Seq<char>, verb: Seq<char>, other: Seq<char>)
    requires
        slashless(kind),
        other == "delete"@ || other == "watch"@ || other == "unwatch"@,
        verb == "list"@ || verb == "get"@ || verb == "update"@ || verb == "schema"@,
    ensures
        other == "delete"@ ==> kind + "/"@ + verb != "subject/delete"@,
        other == "watch"@ ==> kind + "/"@ + verb != "subject/watch"@,
        other == "unwatch"@ ==> kind + "/"@ + verb != "subject/unwatch"@,
{
    reveal_strlit("list");
    reveal_strlit("get");
    reveal_strlit("update");
    reveal_strlit("schema");
    reveal_strlit("delete");
    reveal_strlit("watch");
    reveal_strlit("unwatch");
    reveal_strlit("subject/delete");
    reveal_strlit("subject/watch");
    reveal_strlit("subject/unwatch");
    let method = kind + "/"@ + verb;
    assert(method[method.len() - 2] == verb[verb.len() - 2]);
    assert(method.last() == verb.last());
    assert("list"@.last() == 't' && "get"@.last() == 't' && "schema"@.last() == 'a');
    assert("update"@[0] == 'u' && "update"@[3] == 'a' && "update"@.len() == 6);
    assert("subject/delete"@.last() == 'e' && "subject/watch"@.last() == 'h'
        && "subject/unwatch"@.last() == 'h');
    assert(verb == "update"@ ==> method[method.len() - 3] == 'a');
    assert("subject/delete"@.len() == 14 && "subject/delete"@[11] == 'e');
}

/// A method that the library does not know is named in the refusal.
pub proof fn unknown_methods_are_named(method: Seq<char>)
    ensures
        method_unknown(method) == (Fault {
            code: ErrorCode::MethodNotFound,
            message: "method '"@ + method + "' not implemented by animus-subject-default"@,
            data: None,
        }),
{
}

/// The key of a watch is the id of the request, where that is a string, and otherwise the text of
/// it: the digits of a whole number, with a minus sign before those of a negative one, `true`,
/// `false`, and `null`, also where there is no id.
pub proof fn watches_are_keyed_by_the_text_of_the_id(
    text: Seq<char>,
    n: u64,
    m: i64,
    items: Seq<Json>,
    members: Map<Seq<char>, Json>,
    rendered: Seq<char>,
)
    ensures
        key_of(Some(Json::String(text)), rendered) == text,
        key_of(Some(Json::Number(JsonNumber::PosInt(n))), rendered) == decimal(n as nat),
        m < 0 ==> key_of(Some(Json::Number(JsonNumber::NegInt(m))), rendered) == "-"@ + decimal(
            (0 - m) as nat,
        ),
        key_of(Some(Json::Number(JsonNumber::Float(text))), rendered) == text,
        key_of(Some(Json::Bool(true)), rendered) == "true"@,
        key_of(Some(Json::Bool(false)), rendered) == "false"@,
        key_of(Some(Json::Null), rendered) == "null"@,
        key_of(None, rendered) == "null"@,
        key_of(Some(Json::Array(items)), rendered) == rendered,
        key_of(Some(Json::Object(members)), rendered) == rendered,
{
}

/// A notification has the method, and as parameters the id of the request that started the watch,
/// or null, and the event.
pub proof fn notifications_carry_the_id_and_the_event(
    method: Seq<char>,
    id: Option<Json>,
    event: Json,
)
    ensures
        notification(method, id, event).field("jsonrpc"@) == Some(Json::String("2.0"@)),
        notification(method, id, event).field("method"@) == Some(Json::String(method)),
        notification(method, id, event).nested("params"@, "id"@) == Some(
            match id {
                Some(id) => id,
                None => Json::Null,
            },
        ),
        notification(method, id, event).nested("params"@, "event"@) == Some(event),
{
    lemma_names();
    reveal_strlit("params");
    reveal_strlit("method");
    assert("params"@[0] != "method"@[0]);
}

/// A manifest tells who the plugin is, which methods it has, with the marker of its kind once among
/// them, and which variables it reads, none of which is required.
pub proof fn manifests_tell_of_the_plugin(identity: Identity, methods: Seq<Seq<char>>)
    ensures
        ({
            let manifest = manifest_of(identity, methods);
            let names = if methods.contains("subject_kind:task"@) {
                methods
            } else {
                methods.push("subject_kind:task"@)
            };
            &&& manifest.field("name"@) == Some(Json::String(identity.name@))
            &&& manifest.field("version"@) == Some(Json::String(identity.version@))
            &&& manifest.field("plugin_kind"@) == Some(Json::String(identity.plugin_kind@))
            &&& manifest.field("description"@) == Some(
                match identity.description {
                    Some(description) => Json::String(description@),
                    None => Json::String(Seq::empty()),
                },
            )
            &&& manifest.field("protocol_version"@) == Some(
                Json::String(identity.protocol_version@),
            )
            &&& manifest.field("capabilities"@) == Some(array_of(names))
            &&& manifest.field("env_required"@) == Some(Json::Array(variables()))
        }),
        variables().len() == 3,
        variables()[0].field("name"@) == Some(Json::String("ANIMUS_DEFAULT_TASK_DB_PATH"@)),
        variables()[1].field("name"@) == Some(Json::String("ANIMUS_DEFAULT_TASK_ID_PREFIX"@)),
        variables()[2].field("name"@) == Some(Json::String("ANIMUS_DEFAULT_TASK_ID_PAD"@)),
        forall|i: int|
            0 <= i < 3 ==> (#[trigger] variables()[i]).field("required"@) == Some(
                Json::Bool(false),
            ),
        variables()[0].field("description"@) == Some(
            Json::String("Path to the tasks SQLite database."@),
        ),
        variables()[1].field("description"@) == Some(Json::String("Sequential task id prefix."@)),
        variables()[2].field("description"@) == Some(
            Json::String("Zero-padding width for sequential task ids."@),
        ),
{
    lemma_names();
    let names = if methods.contains("subject_kind:task"@) {
        methods
    } else {
        methods.push("subject_kind:task"@)
    };
    strings_are_written_in_order(names);
}

/// The manifest is asked for by `--manifest` and by `-m`, and by nothing else.
pub proof fn two_flags_ask_for_the_manifest(arg: Seq<char>)
    ensures
        is_manifest_flag(arg) <==> arg == "--manifest"@ || arg == "-m"@,
{
}

} // verus!
