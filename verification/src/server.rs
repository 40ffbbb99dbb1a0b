//! The requests that the plugin answers, and what it says of itself.
use crate::config::{ENV_DB_PATH, ENV_ID_PAD, ENV_ID_PREFIX, SUBJECT_KIND};
use crate::methods::dispatch::{
    first_step, get_param, get_string, param, param_text, try_dispatch, Step, StepModel,
};
use crate::methods::patch::holds;
use crate::rpc::{ErrorCode, Fault, RpcError};
use crate::text::{
    chars_of, decimal, decimal_text, joined, same, starts_with, str_view, string_view, trim,
    trimmed,
};
use crate::value::{
    items_view, json_strings, or_else, owned_view, string_value, string_views, strings_value,
    Json, JsonNumber, Number, Object, Value,
};
use vstd::prelude::*;
use vstd::string::*;

verus! {

/// The text of the request that a line of input holds; a blank line holds none.
pub open spec fn request_in(line: Seq<char>) -> Option<Seq<char>> {
    if trimmed(line).len() == 0 {
        None
    } else {
        Some(trimmed(line))
    }
}

/// The text of the request that a line of input holds, or `None` where the line is blank.
pub fn request_text(line: &str) -> (text: Option<&str>)
    ensures
        str_view(text) == request_in(line@),
{
    let text = trim(line);
    if text.is_empty() {
        None
    } else {
        Some(text)
    }
}

/// How many characters come before the first slash.
pub open spec fn slash_at(s: Seq<char>) -> nat
    decreases s.len(),
{
    if s.len() > 0 && s[0] != '/' {
        1 + slash_at(s.skip(1))
    } else {
        0
    }
}

/// The kind and the verb of a method: what comes before and after the first slash. The kind
/// `subject` stands for any, and so does a method without a slash.
pub open spec fn method_parts(method: Seq<char>) -> (Seq<char>, Seq<char>) {
    let at = slash_at(method) as int;
    if at < method.len() {
        let kind = method.take(at);
        (if kind == "subject"@ {
            ""@
        } else {
            kind
        }, method.skip(at + 1))
    } else {
        (""@, method)
    }
}

/// The kind and the verb of a method.
pub fn subject_method_parts(method: &str) -> (parts: (&str, &str))
    ensures
        (parts.0@, parts.1@) == method_parts(method@),
{
    let chars = chars_of(method);
    let mut at: usize = 0;
    assert(method@.skip(0) == method@);
    while at < chars.len() && chars[at] != '/'
        invariant
            chars@ == method@,
            at <= chars.len(),
            slash_at(method@) == at + slash_at(method@.skip(at as int)),
        decreases chars.len() - at,
    {
        assert(method@.skip(at as int).skip(1) == method@.skip(at + 1));
        at = at + 1;
    }
    let total: usize = method.unicode_len();
    if at < total {
        let kind = method.substring_char(0, at);
        let verb = method.substring_char(at + 1, total);
        assert(method@.take(at as int) == method@.subrange(0, at as int));
        assert(method@.skip(at + 1) == method@.subrange(at + 1, total as int));
        if same(kind, "subject") {
            ("", verb)
        } else {
            (kind, verb)
        }
    } else {
        ("", method)
    }
}

/// A request of one of the standard subject verbs.
#[derive(Debug)]
pub enum Standard {
    /// List by a filter document, or without one.
    List { filter: Option<Value> },
    Get { id: String },
    /// Patch by a document, or by nothing.
    Update { id: String, patch: Option<Value> },
    Schema,
    Refused(RpcError),
}

/// The model of a [`Standard`].
pub enum StandardModel {
    List { filter: Option<Json> },
    Get { id: Seq<char> },
    Update { id: Seq<char>, patch: Option<Json> },
    Schema,
    Refused(Fault),
}

impl Standard {
    pub open spec fn view(&self) -> StandardModel {
        match self {
            Standard::List { filter } => StandardModel::List { filter: owned_view(*filter) },
            Standard::Get { id } => StandardModel::Get { id: id@ },
            Standard::Update { id, patch } => StandardModel::Update {
                id: id@,
                patch: owned_view(*patch),
            },
            Standard::Schema => StandardModel::Schema,
            Standard::Refused(error) => StandardModel::Refused(error@),
        }
    }
}

/// The fault of a request without an id.
pub open spec fn id_missing(method: Seq<char>) -> Fault {
    Fault { code: ErrorCode::InvalidParams, message: method + " requires id"@, data: None }
}

fn missing_id(method: &str) -> (error: RpcError)
    ensures
        error@ == id_missing(method@),
{
    RpcError {
        code: ErrorCode::InvalidParams,
        message: joined(method, " requires id"),
        data: None,
    }
}

/// The fault of a request for a method that there is not.
pub open spec fn method_unknown(method: Seq<char>) -> Fault {
    Fault {
        code: ErrorCode::MethodNotFound,
        message: "method '"@ + method + "' not implemented by animus-subject-default"@,
        data: None,
    }
}

fn unknown_method(method: &str) -> (error: RpcError)
    ensures
        error@ == method_unknown(method@),
{
    let head = joined("method '", method);
    RpcError {
        code: ErrorCode::MethodNotFound,
        message: joined(head.as_str(), "' not implemented by animus-subject-default"),
        data: None,
    }
}

/// The filter document of a listing: the parameter `filter`, or else all parameters.
pub open spec fn requested_filter(params: Option<Json>) -> Option<Json> {
    match param(params, "filter"@) {
        Some(filter) => Some(filter),
        None => params,
    }
}

/// The request that a standard verb makes.
pub open spec fn standard_request(method: Seq<char>, params: Option<Json>) -> StandardModel {
    let verb = method_parts(method).1;
    if verb == "list"@ {
        StandardModel::List { filter: requested_filter(params) }
    } else if verb == "get"@ {
        match param_text(params, "id"@) {
            Some(id) => StandardModel::Get { id },
            None => StandardModel::Refused(id_missing("subject/get"@)),
        }
    } else if verb == "update"@ {
        match param_text(params, "id"@) {
            Some(id) => StandardModel::Update { id, patch: param(params, "patch"@) },
            None => StandardModel::Refused(id_missing("subject/update"@)),
        }
    } else if verb == "schema"@ {
        StandardModel::Schema
    } else {
        StandardModel::Refused(method_unknown(method))
    }
}

fn param_value(params: &Option<Value>, key: &str) -> (value: Option<Value>)
    ensures
        owned_view(value) == param(owned_view(*params), key@),
{
    match get_param(params, key) {
        Some(v) => Some(v.clone()),
        None => None,
    }
}

/// The request that a standard verb makes.
pub fn standard_subject(method: &str, params: &Option<Value>) -> (request: Standard)
    ensures
        request@ == standard_request(method@, owned_view(*params)),
{
    let (_kind, verb) = subject_method_parts(method);
    if same(verb, "list") {
        let filter = match param_value(params, "filter") {
            Some(filter) => Some(filter),
            None => match params {
                Some(p) => Some(p.clone()),
                None => None,
            },
        };
        Standard::List { filter }
    } else if same(verb, "get") {
        match get_string(params, "id") {
            Some(id) => Standard::Get { id },
            None => Standard::Refused(missing_id("subject/get")),
        }
    } else if same(verb, "update") {
        match get_string(params, "id") {
            Some(id) => Standard::Update { id, patch: param_value(params, "patch") },
            None => Standard::Refused(missing_id("subject/update")),
        }
    } else if same(verb, "schema") {
        Standard::Schema
    } else {
        Standard::Refused(unknown_method(method))
    }
}

/// What a request asks for.
#[derive(Debug)]
pub enum Route {
    /// Say what the plugin is and can do.
    Initialize,
    /// Say nothing.
    Silent,
    /// Reply with an empty object.
    Acknowledge,
    /// Say whether the backend works.
    Health,
    /// Delete a subject.
    Delete(Result<String, RpcError>),
    /// Start to watch.
    Watch,
    /// Stop the watch of this id, if one is given.
    Unwatch(Option<String>),
    /// Answer from the task surface.
    Task(Step),
    /// Answer one of the standard verbs.
    Standard(Standard),
}

/// The model of a [`Route`].
pub enum RouteModel {
    Initialize,
    Silent,
    Acknowledge,
    Health,
    Delete(Result<Seq<char>, Fault>),
    Watch,
    Unwatch(Option<Seq<char>>),
    Task(StepModel),
    Standard(StandardModel),
}

impl Route {
    pub open spec fn view(&self) -> RouteModel {
        match self {
            Route::Initialize => RouteModel::Initialize,
            Route::Silent => RouteModel::Silent,
            Route::Acknowledge => RouteModel::Acknowledge,
            Route::Health => RouteModel::Health,
            Route::Delete(id) => RouteModel::Delete(
                match id {
                    Ok(id) => Ok(id@),
                    Err(e) => Err(e@),
                },
            ),
            Route::Watch => RouteModel::Watch,
            Route::Unwatch(id) => RouteModel::Unwatch(string_view(*id)),
            Route::Task(step) => RouteModel::Task(step@),
            Route::Standard(request) => RouteModel::Standard(request@),
        }
    }
}

/// The route of a request that the lifecycle methods and the special verbs leave over: listings
/// by subject are standard, then comes the task surface, then the standard verbs.
pub open spec fn verb_route(method: Seq<char>, params: Option<Json>) -> RouteModel {
    if method == "subject/list"@ {
        RouteModel::Standard(standard_request(method, params))
    } else {
        match first_step(method, params) {
            Some(step) => RouteModel::Task(step),
            None => RouteModel::Standard(standard_request(method, params)),
        }
    }
}

/// The route of a request. The lifecycle methods come first; other methods that start with `$/`
/// are notifications that get no reply.
pub open spec fn routed(method: Seq<char>, params: Option<Json>) -> RouteModel {
    if method == "initialize"@ {
        RouteModel::Initialize
    } else if method == "initialized"@ {
        RouteModel::Silent
    } else if method == "$/ping"@ || method == "shutdown"@ {
        RouteModel::Acknowledge
    } else if method == "health/check"@ {
        RouteModel::Health
    } else if "$/"@.is_prefix_of(method) {
        RouteModel::Silent
    } else if method == "task/delete"@ || method == "subject/delete"@ {
        RouteModel::Delete(
            match param_text(params, "id"@) {
                Some(id) => Ok(id),
                None => Err(id_missing("subject/delete"@)),
            },
        )
    } else if method == "subject/watch"@ || method == "task/watch"@ {
        RouteModel::Watch
    } else if method == "subject/unwatch"@ || method == "task/unwatch"@ {
        RouteModel::Unwatch(param_text(params, "watch_id"@))
    } else {
        verb_route(method, params)
    }
}

/// Decides what a request asks for.
pub fn route(method: &str, params: &Option<Value>) -> (route: Route)
    ensures
        route@ == routed(method@, owned_view(*params)),
{
    if same(method, "initialize") {
        Route::Initialize
    } else if same(method, "initialized") {
        Route::Silent
    } else if same(method, "$/ping") || same(method, "shutdown") {
        Route::Acknowledge
    } else if same(method, "health/check") {
        Route::Health
    } else if starts_with(method, "$/") {
        Route::Silent
    } else if same(method, "task/delete") || same(method, "subject/delete") {
        Route::Delete(
            match get_string(params, "id") {
                Some(id) => Ok(id),
                None => Err(missing_id("subject/delete")),
            },
        )
    } else if same(method, "subject/watch") || same(method, "task/watch") {
        Route::Watch
    } else if same(method, "subject/unwatch") || same(method, "task/unwatch") {
        Route::Unwatch(get_string(params, "watch_id"))
    } else if same(method, "subject/list") {
        Route::Standard(standard_subject(method, params))
    } else {
        match try_dispatch(method, params) {
            Some(step) => Route::Task(step),
            None => Route::Standard(standard_subject(method, params)),
        }
    }
}

// ---------------------------------------------------------------------
// Watches
// ---------------------------------------------------------------------

/// The text of a number: integers in decimal form, any other number as it was written.
pub open spec fn number_text(n: JsonNumber) -> Seq<char> {
    match n {
        JsonNumber::PosInt(n) => decimal(n as nat),
        JsonNumber::NegInt(n) => if n < 0 {
            "-"@ + decimal((-n) as nat)
        } else {
            decimal(n as nat)
        },
        JsonNumber::Float(text) => text,
    }
}

fn number_string(n: &Number) -> (text: String)
    ensures
        text@ == number_text(n@),
{
    match n {
        Number::PosInt(n) => decimal_text(*n as u128),
        Number::NegInt(n) => if *n < 0 {
            let magnitude: u128 = (-(*n as i128)) as u128;
            joined("-", decimal_text(magnitude).as_str())
        } else {
            decimal_text(*n as u128)
        },
        Number::Float(text) => text.clone(),
    }
}

/// The key of the watch that a request id starts; `rendered` is the JSON text of an id that is an
/// array or an object.
pub open spec fn key_of(id: Option<Json>, rendered: Seq<char>) -> Seq<char> {
    match id {
        Some(Json::String(s)) => s,
        Some(Json::Number(n)) => number_text(n),
        Some(Json::Bool(b)) => if b {
            "true"@
        } else {
            "false"@
        },
        Some(Json::Null) => "null"@,
        Some(_) => rendered,
        None => "null"@,
    }
}

/// The key of the watch that a request id starts: a string as it is, and of anything else the JSON
/// text. That of an array or an object is `rendered`.
pub fn watch_key(id: &Option<Value>, rendered: &str) -> (key: String)
    ensures
        key@ == key_of(owned_view(*id), rendered@),
{
    match id {
        Some(Value::String(s)) => s.clone(),
        Some(Value::Number(n)) => number_string(n),
        Some(Value::Bool(b)) => if *b {
            "true".to_string()
        } else {
            "false".to_string()
        },
        Some(Value::Null) => "null".to_string(),
        Some(_) => rendered.to_string(),
        None => "null".to_string(),
    }
}

/// The watches that run, each under its key and with the number of the task that serves it.
pub struct WatchRegistry {
    watches: Object,
}

impl WatchRegistry {
    #[verifier::type_invariant]
    spec fn holds_numbers(&self) -> bool {
        forall|key: Seq<char>| #[trigger]
            self.watches@.contains_key(key) ==> self.watches@[key].as_u64() is Some
    }

    /// The number under each key.
    pub closed spec fn view(&self) -> Map<Seq<char>, u64> {
        Map::new(
            |key: Seq<char>| self.watches@.contains_key(key),
            |key: Seq<char>| self.watches@[key].as_u64()->0,
        )
    }

    /// A registry without watches.
    pub fn new() -> (registry: Self)
        ensures
            registry@ == Map::<Seq<char>, u64>::empty(),
    {
        let registry = WatchRegistry { watches: Object::new() };
        assert(registry@ =~= Map::<Seq<char>, u64>::empty());
        registry
    }

    /// The number under a key.
    pub fn get(&self, key: &str) -> (number: Option<u64>)
        ensures
            number == (if self@.contains_key(key@) {
                Some(self@[key@])
            } else {
                None
            }),
    {
        proof {
            use_type_invariant(self);
        }
        match self.watches.get(key) {
            Some(v) => v.as_u64(),
            None => None,
        }
    }

    /// Enters a watch, and gives back the one that it replaces, which has to be stopped.
    pub fn start(&mut self, key: &str, number: u64) -> (replaced: Option<u64>)
        ensures
            final(self)@ == old(self)@.insert(key@, number),
            replaced == (if old(self)@.contains_key(key@) {
                Some(old(self)@[key@])
            } else {
                None
            }),
    {
        let replaced = self.get(key);
        proof {
            use_type_invariant(&*self);
        }
        let mut watches = self.watches.clone();
        watches.insert(key, Value::Number(Number::PosInt(number)));
        self.watches = watches;
        assert(self@ =~= old(self)@.insert(key@, number));
        replaced
    }

    /// Takes a watch out and gives it back, to be stopped; where there is none nothing happens.
    pub fn stop(&mut self, key: &str) -> (stopped: Option<u64>)
        ensures
            final(self)@ == old(self)@.remove(key@),
            stopped == (if old(self)@.contains_key(key@) {
                Some(old(self)@[key@])
            } else {
                None
            }),
            !old(self)@.contains_key(key@) ==> final(self)@ == old(self)@,
    {
        let stopped = self.get(key);
        proof {
            use_type_invariant(&*self);
        }
        let mut watches = self.watches.clone();
        watches.remove(key);
        self.watches = watches;
        assert(self@ =~= old(self)@.remove(key@));
        assert(!old(self)@.contains_key(key@) ==> self@ =~= old(self)@);
        stopped
    }
}

/// The error of a watch on a backend that has no changes to tell.
pub fn watch_refused() -> (error: RpcError)
    ensures
        error@ == (Fault {
            code: ErrorCode::MethodNotSupported,
            message: "this backend does not support subject/watch"@,
            data: None,
        }),
{
    RpcError {
        code: ErrorCode::MethodNotSupported,
        message: "this backend does not support subject/watch".to_string(),
        data: None,
    }
}

/// The notification of a change, which carries the id of the request that started the watch.
pub open spec fn notification(method: Seq<char>, id: Option<Json>, event: Json) -> Json {
    Json::Object(
        map![
            "jsonrpc"@ => Json::String("2.0"@),
            "method"@ => Json::String(method),
            "params"@ => Json::Object(
                map!["id"@ => or_else(id, Json::Null), "event"@ => event],
            ),
        ],
    )
}

/// The notification of a change.
pub fn change_notification(method: &str, id: &Option<Value>, event: Value) -> (frame: Value)
    ensures
        frame@ == notification(method@, owned_view(*id), event@),
{
    let mut params = Object::new();
    params.insert(
        "id",
        match id {
            Some(id) => id.clone(),
            None => Value::Null,
        },
    );
    params.insert("event", event);
    let mut frame = Object::new();
    frame.insert("jsonrpc", string_value("2.0"));
    frame.insert("method", string_value(method));
    frame.insert("params", Value::Object(params));
    Value::Object(frame)
}

/// The reply to a request that only has to be acknowledged.
pub fn acknowledgement() -> (reply: Value)
    ensures
        reply@ == Json::Object(Map::empty()),
{
    Value::Object(Object::new())
}

/// The reply to the end of a watch, whether there was one or not.
pub fn unwatched() -> (reply: Value)
    ensures
        reply@ == Json::Object(map!["ok"@ => Json::Bool(true)]),
{
    let mut reply = Object::new();
    reply.insert("ok", Value::Bool(true));
    Value::Object(reply)
}

// ---------------------------------------------------------------------
// Self-description
// ---------------------------------------------------------------------

/// The marker by which a host sees that the plugin serves tasks.
pub const SUBJECT_KIND_TASK_CAPABILITY: &'static str = "subject_kind:task";

/// What the plugin can do.
#[derive(Debug)]
pub struct Capabilities {
    pub methods: Vec<String>,
    pub streaming: bool,
    pub progress: bool,
    pub cancellation: bool,
    pub subject_kinds: Vec<String>,
}

/// The methods that the plugin serves, in the order in which it names them.
pub open spec fn served_methods() -> Seq<Seq<char>> {
    seq![
        "task/list"@,
        "task/list_filtered"@,
        "task/list_prioritized"@,
        "task/get"@,
        "task/create"@,
        "task/update"@,
        "task/replace"@,
        "task/delete"@,
        "task/statistics"@,
        "task/assign"@,
        "task/status"@,
        "task/next"@,
        "task/add_checklist_item"@,
        "task/update_checklist_item"@,
        "task/add_dependency"@,
        "task/remove_dependency"@,
        "task/schema"@,
        "task/watch"@,
        "task/unwatch"@,
        "subject/list"@,
        "subject/get"@,
        "subject/update"@,
        "subject/delete"@,
        "subject/schema"@,
        "subject/watch"@,
        "subject/unwatch"@,
        "health/check"@,
    ]
}

/// What the plugin names as its methods: those that it serves and the marker of its kind.
pub open spec fn advertised() -> Seq<Seq<char>> {
    served_methods().push("subject_kind:task"@)
}

/// What the plugin can do: tasks, with streaming and without progress or cancellation.
pub fn capabilities() -> (capabilities: Capabilities)
    ensures
        string_views(capabilities.methods@) == advertised(),
        capabilities.streaming,
        !capabilities.progress,
        !capabilities.cancellation,
        string_views(capabilities.subject_kinds@) == seq!["task"@],
{
    let mut methods: Vec<String> = Vec::new();
    methods.push("task/list".to_string());
    methods.push("task/list_filtered".to_string());
    methods.push("task/list_prioritized".to_string());
    methods.push("task/get".to_string());
    methods.push("task/create".to_string());
    methods.push("task/update".to_string());
    methods.push("task/replace".to_string());
    methods.push("task/delete".to_string());
    methods.push("task/statistics".to_string());
    methods.push("task/assign".to_string());
    methods.push("task/status".to_string());
    methods.push("task/next".to_string());
    methods.push("task/add_checklist_item".to_string());
    methods.push("task/update_checklist_item".to_string());
    methods.push("task/add_dependency".to_string());
    methods.push("task/remove_dependency".to_string());
    methods.push("task/schema".to_string());
    methods.push("task/watch".to_string());
    methods.push("task/unwatch".to_string());
    methods.push("subject/list".to_string());
    methods.push("subject/get".to_string());
    methods.push("subject/update".to_string());
    methods.push("subject/delete".to_string());
    methods.push("subject/schema".to_string());
    methods.push("subject/watch".to_string());
    methods.push("subject/unwatch".to_string());
    methods.push("health/check".to_string());
    methods.push(SUBJECT_KIND_TASK_CAPABILITY.to_string());
    assert(string_views(methods@) =~= advertised());
    let mut subject_kinds: Vec<String> = Vec::new();
    subject_kinds.push(SUBJECT_KIND.to_string());
    assert(string_views(subject_kinds@) =~= seq!["task"@]);
    Capabilities { methods, streaming: true, progress: false, cancellation: false, subject_kinds }
}

/// The names with the marker of the kind among them.
pub open spec fn with_marker(methods: Seq<Seq<char>>) -> Seq<Seq<char>> {
    if methods.contains("subject_kind:task"@) {
        methods
    } else {
        methods.push("subject_kind:task"@)
    }
}

/// An environment variable in a manifest. None is required.
pub open spec fn variable(name: Seq<char>, description: Seq<char>) -> Json {
    Json::Object(
        map![
            "name"@ => Json::String(name),
            "description"@ => Json::String(description),
            "required"@ => Json::Bool(false),
        ],
    )
}

fn variable_value(name: &str, description: &str) -> (value: Value)
    ensures
        value@ == variable(name@, description@),
{
    let mut object = Object::new();
    object.insert("name", string_value(name));
    object.insert("description", string_value(description));
    object.insert("required", Value::Bool(false));
    Value::Object(object)
}

/// The environment variables that the plugin reads.
pub open spec fn variables() -> Seq<Json> {
    seq![
        variable("ANIMUS_DEFAULT_TASK_DB_PATH"@, "Path to the tasks SQLite database."@),
        variable("ANIMUS_DEFAULT_TASK_ID_PREFIX"@, "Sequential task id prefix."@),
        variable(
            "ANIMUS_DEFAULT_TASK_ID_PAD"@,
            "Zero-padding width for sequential task ids."@,
        ),
    ]
}

/// Who the plugin is.
#[derive(Debug)]
pub struct Identity {
    pub name: String,
    pub version: String,
    pub plugin_kind: String,
    pub description: Option<String>,
    pub protocol_version: String,
}

/// The manifest of the plugin.
pub open spec fn manifest_of(identity: Identity, methods: Seq<Seq<char>>) -> Json {
    Json::Object(
        map![
            "name"@ => Json::String(identity.name@),
            "version"@ => Json::String(identity.version@),
            "plugin_kind"@ => Json::String(identity.plugin_kind@),
            "description"@ => Json::String(
                or_else(string_view(identity.description), Seq::empty()),
            ),
            "protocol_version"@ => Json::String(identity.protocol_version@),
            "capabilities"@ => json_strings(with_marker(methods)),
            "env_required"@ => Json::Array(variables()),
        ],
    )
}

/// The manifest of the plugin, which names the marker of its kind in any case.
pub fn manifest(identity: &Identity, methods: &Vec<String>) -> (manifest: Value)
    ensures
        manifest@ == manifest_of(*identity, string_views(methods@)),
{
    let mut advertised: Vec<String> = Vec::new();
    for i in 0..methods.len()
        invariant
            string_views(advertised@) == string_views(methods@).take(i as int),
    {
        let ghost before = advertised@;
        advertised.push(methods[i].clone());
        assert(string_views(advertised@) =~= string_views(before).push(methods@[i as int]@));
        assert(string_views(methods@).take(i + 1) =~= string_views(methods@).take(i as int).push(
            methods@[i as int]@,
        ));
    }
    assert(string_views(methods@).take(methods.len() as int) == string_views(methods@));
    if !holds(methods, SUBJECT_KIND_TASK_CAPABILITY) {
        let ghost before = advertised@;
        advertised.push(SUBJECT_KIND_TASK_CAPABILITY.to_string());
        assert(string_views(advertised@) =~= string_views(before).push("subject_kind:task"@));
    }
    let mut env_required: Vec<Value> = Vec::new();
    env_required.push(variable_value(ENV_DB_PATH, "Path to the tasks SQLite database."));
    env_required.push(variable_value(ENV_ID_PREFIX, "Sequential task id prefix."));
    env_required.push(variable_value(ENV_ID_PAD, "Zero-padding width for sequential task ids."));
    assert(items_view(env_required@) =~= variables());
    let mut object = Object::new();
    object.insert("name", string_value(identity.name.as_str()));
    object.insert("version", string_value(identity.version.as_str()));
    object.insert("plugin_kind", string_value(identity.plugin_kind.as_str()));
    object.insert(
        "description",
        match &identity.description {
            Some(description) => string_value(description.as_str()),
            None => Value::String(String::new()),
        },
    );
    object.insert("protocol_version", string_value(identity.protocol_version.as_str()));
    object.insert("capabilities", strings_value(&advertised));
    object.insert("env_required", Value::Array(env_required));
    Value::Object(object)
}

/// Whether an argument asks for the manifest.
pub open spec fn is_manifest_flag(arg: Seq<char>) -> bool {
    arg == "--manifest"@ || arg == "-m"@
}

/// Whether one of the arguments asks for the manifest.
pub fn wants_manifest(args: &Vec<String>) -> (yes: bool)
    ensures
        yes == exists|i: int| 0 <= i < args.len() && is_manifest_flag(#[trigger] args[i]@),
{
    for i in 0..args.len()
        invariant
            forall|j: int| 0 <= j < i ==> !is_manifest_flag(#[trigger] args[j]@),
    {
        if same(args[i].as_str(), "--manifest") || same(args[i].as_str(), "-m") {
            assert(is_manifest_flag(args[i as int]@));
            return true;
        }
    }
    false
}

/// What is said to a user who starts the plugin at a terminal.
pub fn terminal_refusal(name: &str) -> (message: String)
    ensures
        message@ == name@
            + " is a STDIO plugin; pipe JSON-RPC on stdin or pass --manifest"@,
{
    joined(name, " is a STDIO plugin; pipe JSON-RPC on stdin or pass --manifest")
}

} // verus!
