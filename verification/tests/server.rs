//! Routes, watches and self-description.
use animus_subject_default::methods::dispatch::Step;
use animus_subject_default::rpc::{ErrorCode, RpcError};
use animus_subject_default::server::{
    acknowledgement, capabilities, change_notification, manifest, request_text, route,
    standard_subject, subject_method_parts, terminal_refusal, unwatched, wants_manifest, watch_key,
    watch_refused, Identity, Route, Standard, WatchRegistry, SUBJECT_KIND_TASK_CAPABILITY,
};
use animus_subject_default::value::{string_value, strings_in, Number, Object, Value};

fn params(pairs: &[(&str, &str)]) -> Option<Value> {
    let mut object = Object::new();
    for (key, text) in pairs {
        object.insert(key, string_value(text));
    }
    Some(Value::Object(object))
}

fn refusal(error: RpcError) -> (ErrorCode, String) {
    assert!(error.data.is_none());
    (error.code, error.message)
}

#[test]
fn blank_lines_hold_no_request() {
    assert_eq!(request_text(" {\"id\":1} \r\n"), Some("{\"id\":1}"));
    assert_eq!(request_text("{}"), Some("{}"));
    assert_eq!(request_text(""), None);
    assert_eq!(request_text(" \t\r\n"), None);
}

#[test]
fn methods_are_split_at_the_first_slash() {
    assert_eq!(subject_method_parts("subject/list"), ("", "list"));
    assert_eq!(subject_method_parts("task/schema"), ("task", "schema"));
    assert_eq!(subject_method_parts("a/b/c"), ("a", "b/c"));
    assert_eq!(subject_method_parts("/x"), ("", "x"));
    assert_eq!(subject_method_parts("subject/"), ("", ""));
    assert_eq!(subject_method_parts("subject"), ("", "subject"));
    assert_eq!(subject_method_parts(""), ("", ""));
    assert_eq!(subject_method_parts("\u{e9}/\u{df}"), ("\u{e9}", "\u{df}"));
}

#[test]
fn lifecycle_methods_take_precedence() {
    assert!(matches!(route("initialize", &None), Route::Initialize));
    assert!(matches!(route("initialized", &None), Route::Silent));
    assert!(matches!(route("$/ping", &None), Route::Acknowledge));
    assert!(matches!(route("shutdown", &None), Route::Acknowledge));
    assert!(matches!(route("health/check", &None), Route::Health));
    assert!(matches!(route("$/cancel", &None), Route::Silent));
    assert!(matches!(route("$/", &None), Route::Silent));
}

#[test]
fn deletions_go_to_the_backend() {
    for method in ["task/delete", "subject/delete"] {
        let Route::Delete(Ok(id)) = route(method, &params(&[("id", "task:x")])) else {
            panic!("a deletion names an id");
        };
        assert_eq!(id, "task:x");
        let Route::Delete(Err(error)) = route(method, &None) else {
            panic!("a deletion without an id is refused");
        };
        assert_eq!(
            refusal(error),
            (ErrorCode::InvalidParams, "subject/delete requires id".to_string())
        );
    }
}

#[test]
fn watches_are_started_and_stopped() {
    for kind in ["task", "subject"] {
        assert!(matches!(route(&format!("{kind}/watch"), &None), Route::Watch));
        let unwatch = format!("{kind}/unwatch");
        assert!(matches!(route(&unwatch, &None), Route::Unwatch(None)));
        assert!(matches!(
            route(&unwatch, &params(&[("watch_id", "7")])),
            Route::Unwatch(Some(id)) if id == "7"
        ));
    }
}

#[test]
fn task_verbs_go_to_the_task_surface() {
    assert!(matches!(route("task/list", &None), Route::Task(Step::ReadAll(_))));
    assert!(matches!(
        route("task/get", &params(&[("id", "x")])),
        Route::Task(Step::ReadTask { .. })
    ));
    assert!(matches!(
        route("task/create", &params(&[("title", "x")])),
        Route::Task(Step::ReadIds(_))
    ));
    assert!(matches!(
        route("subject/list", &None),
        Route::Standard(Standard::List { filter: None })
    ));
    assert!(matches!(route("task/schema", &None), Route::Standard(Standard::Schema)));
    assert!(matches!(
        route("issue/list", &None),
        Route::Standard(Standard::List { .. })
    ));
}

#[test]
fn filters_may_come_in_an_envelope() {
    let mut inner = Object::new();
    inner.insert("kind", string_value("task"));
    let mut outer = Object::new();
    outer.insert("filter", Value::Object(inner));
    let Standard::List { filter: Some(filter) } =
        standard_subject("subject/list", &Some(Value::Object(outer)))
    else {
        panic!("a listing has a filter");
    };
    assert_eq!(filter.text("kind"), Some("task"));
    let Standard::List { filter: Some(filter) } =
        standard_subject("subject/list", &params(&[("kind", "flat")]))
    else {
        panic!("a listing has a filter");
    };
    assert_eq!(filter.text("kind"), Some("flat"));
}

#[test]
fn standard_verbs_need_an_id() {
    for (method, message) in [
        ("subject/get", "subject/get requires id"),
        ("issue/get", "subject/get requires id"),
        ("subject/update", "subject/update requires id"),
    ] {
        let Standard::Refused(error) = standard_subject(method, &None) else {
            panic!("{method} needs an id");
        };
        assert_eq!(refusal(error), (ErrorCode::InvalidParams, message.to_string()));
    }
    assert!(matches!(
        standard_subject("subject/get", &params(&[("id", "task:x")])),
        Standard::Get { id } if id == "task:x"
    ));
    assert!(matches!(
        standard_subject("subject/update", &params(&[("id", "x")])),
        Standard::Update { id, patch: None } if id == "x"
    ));
    assert!(matches!(
        standard_subject("subject/update", &params(&[("id", "x"), ("patch", "p")])),
        Standard::Update { patch: Some(_), .. }
    ));
}

#[test]
fn unknown_methods_are_not_found() {
    for method in ["requirement/delete", "task/fly", "fly", "", "subject/create"] {
        let Route::Standard(Standard::Refused(error)) = route(method, &None) else {
            panic!("{method} is not there");
        };
        assert_eq!(
            refusal(error),
            (
                ErrorCode::MethodNotFound,
                format!("method '{method}' not implemented by animus-subject-default")
            )
        );
    }
}

#[test]
fn every_named_method_is_served() {
    let capabilities = capabilities();
    assert_eq!(capabilities.methods.len(), 28);
    assert_eq!(capabilities.methods[0], "task/list");
    assert_eq!(capabilities.methods[18], "task/unwatch");
    assert_eq!(capabilities.methods[27], SUBJECT_KIND_TASK_CAPABILITY);
    assert!(capabilities.streaming);
    assert!(!capabilities.progress);
    assert!(!capabilities.cancellation);
    assert_eq!(capabilities.subject_kinds, vec!["task".to_string()]);
    for method in &capabilities.methods[..27] {
        if let Route::Standard(Standard::Refused(error)) = route(method, &None) {
            assert_eq!(error.code, ErrorCode::InvalidParams, "{method}");
        }
    }
}

#[test]
fn watch_keys_are_texts() {
    let key = |id: Option<Value>, rendered: &str| watch_key(&id, rendered);
    assert_eq!(key(Some(string_value("abc")), "\"abc\""), "abc");
    assert_eq!(key(Some(Value::Number(Number::PosInt(42))), "42"), "42");
    assert_eq!(key(Some(Value::Number(Number::PosInt(0))), "?"), "0");
    assert_eq!(
        key(Some(Value::Number(Number::NegInt(i64::MIN))), "?"),
        i64::MIN.to_string()
    );
    assert_eq!(
        key(Some(Value::Number(Number::Float("1.5".to_string()))), "?"),
        "1.5"
    );
    assert_eq!(key(Some(Value::Null), "?"), "null");
    assert_eq!(key(Some(Value::Bool(true)), "?"), "true");
    assert_eq!(key(Some(Value::Bool(false)), "?"), "false");
    assert_eq!(key(Some(Value::Array(vec![])), "[]"), "[]");
    assert_eq!(key(Some(Value::Object(Object::new())), "{}"), "{}");
    assert_eq!(key(None, ""), "null");
    assert_eq!(
        key(Some(Value::Number(Number::PosInt(7))), "?"),
        key(Some(string_value("7")), "?")
    );
}

#[test]
fn stopping_undoes_starting() {
    let mut watches = WatchRegistry::new();
    assert_eq!(watches.start("a", 1), None);
    assert_eq!(watches.start("b", 2), None);
    assert_eq!(watches.start("a", 3), Some(1));
    assert_eq!(watches.get("a"), Some(3));
    assert_eq!(watches.stop("c"), None);
    assert_eq!(watches.stop("a"), Some(3));
    assert_eq!(watches.stop("a"), None);
    assert_eq!(watches.get("a"), None);
    assert_eq!(watches.get("b"), Some(2));
}

#[test]
fn watches_can_be_refused() {
    assert_eq!(
        refusal(watch_refused()),
        (
            ErrorCode::MethodNotSupported,
            "this backend does not support subject/watch".to_string()
        )
    );
}

#[test]
fn notifications_carry_the_request_and_the_event() {
    let id = Some(Value::Number(Number::PosInt(5)));
    let frame = change_notification("subject/changed", &id, string_value("event"));
    assert_eq!(frame.text("jsonrpc"), Some("2.0"));
    assert_eq!(frame.text("method"), Some("subject/changed"));
    assert_eq!(frame.nested("params", "id").unwrap().as_u64(), Some(5));
    assert_eq!(frame.nested("params", "event").unwrap().as_str(), Some("event"));
    let frame = change_notification("subject/changed", &None, Value::Null);
    assert!(frame.nested("params", "id").unwrap().is_null());
}

#[test]
fn plain_replies() {
    assert!(acknowledgement().as_object().unwrap().is_empty());
    assert_eq!(unwatched().flag("ok"), Some(true));
    assert_eq!(
        terminal_refusal("plugin"),
        "plugin is a STDIO plugin; pipe JSON-RPC on stdin or pass --manifest"
    );
}

fn identity(description: Option<&str>) -> Identity {
    Identity {
        name: "plugin".to_string(),
        version: "1.2.3".to_string(),
        plugin_kind: "subject_backend".to_string(),
        description: description.map(|d| d.to_string()),
        protocol_version: "9".to_string(),
    }
}

#[test]
fn manifests_name_the_marker_once() {
    let described = manifest(&identity(Some("tasks")), &capabilities().methods);
    assert_eq!(described.text("name"), Some("plugin"));
    assert_eq!(described.text("version"), Some("1.2.3"));
    assert_eq!(described.text("plugin_kind"), Some("subject_backend"));
    assert_eq!(described.text("description"), Some("tasks"));
    assert_eq!(described.text("protocol_version"), Some("9"));
    assert_eq!(
        strings_in(described.items("capabilities").unwrap()),
        capabilities().methods
    );
    let env = described.items("env_required").unwrap();
    let names: Vec<&str> = env.iter().map(|v| v.text("name").unwrap()).collect();
    assert_eq!(
        names,
        [
            "ANIMUS_DEFAULT_TASK_DB_PATH",
            "ANIMUS_DEFAULT_TASK_ID_PREFIX",
            "ANIMUS_DEFAULT_TASK_ID_PAD",
        ]
    );
    assert_eq!(
        env[0].text("description"),
        Some("Path to the tasks SQLite database.")
    );
    assert!(env.iter().all(|v| v.flag("required") == Some(false)));
    let bare = manifest(&identity(None), &vec!["x".to_string()]);
    assert_eq!(bare.text("description"), Some(""));
    assert_eq!(
        strings_in(bare.items("capabilities").unwrap()),
        vec!["x".to_string(), "subject_kind:task".to_string()]
    );
}

#[test]
fn arguments_ask_for_the_manifest() {
    let args = |args: &[&str]| -> Vec<String> { args.iter().map(|a| a.to_string()).collect() };
    assert!(wants_manifest(&args(&["--manifest"])));
    assert!(wants_manifest(&args(&["x", "-m"])));
    assert!(!wants_manifest(&args(&[])));
    assert!(!wants_manifest(&args(&["--manifest=1", "m"])));
}
