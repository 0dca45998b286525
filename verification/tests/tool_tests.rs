use motosan_agent_tool::{Error, ErrorKind, JsonNumber, JsonValue, ToolContent, ToolContext, ToolDef, ToolResult};

fn s(v: &str) -> JsonValue {
    JsonValue::String(v.to_string())
}

fn n(v: u64) -> JsonValue {
    JsonValue::Number(JsonNumber::PosInt(v))
}

fn obj(entries: Vec<(&str, JsonValue)>) -> JsonValue {
    JsonValue::Object(entries.into_iter().map(|(k, v)| (k.to_string(), v)).collect())
}

fn arr(items: Vec<JsonValue>) -> JsonValue {
    JsonValue::Array(items)
}

fn search_def() -> ToolDef {
    ToolDef {
        name: "web_search".into(),
        description: "Search the web".into(),
        input_schema: obj(vec![
            ("type", s("object")),
            (
                "properties",
                obj(vec![
                    ("query", obj(vec![("type", s("string"))])),
                    ("max_results", obj(vec![("type", s("integer"))])),
                ]),
            ),
            ("required", arr(vec![s("query")])),
        ]),
    }
}

#[test]
fn validate_input_schema_accepts_valid() {
    search_def().validate_input_schema().unwrap();
}

#[test]
fn validate_input_schema_rejects_missing_properties() {
    let def = ToolDef {
        name: "bad".into(),
        description: "bad".into(),
        input_schema: obj(vec![("type", s("object"))]),
    };
    assert!(def.validate_input_schema().is_err());
}

#[test]
fn validate_args_accepts_valid() {
    let def = search_def();
    let args = obj(vec![("query", s("rust"))]);
    def.validate_args(&args).unwrap();
}

#[test]
fn validate_args_rejects_missing_required() {
    let def = search_def();
    let args = obj(vec![("max_results", n(5))]);
    assert!(matches!(def.validate_args(&args), Err(Error::MissingField(_))));
}

#[test]
fn validate_args_rejects_wrong_type() {
    let def = search_def();
    let args = obj(vec![("query", n(123))]);
    assert!(def.validate_args(&args).is_err());
}

#[test]
fn validate_args_checks_enum() {
    let def = ToolDef {
        name: "t".into(),
        description: "t".into(),
        input_schema: obj(vec![
            ("type", s("object")),
            (
                "properties",
                obj(vec![("lang", obj(vec![("type", s("string")), ("enum", arr(vec![s("en"), s("ja"), s("zh")]))]))]),
            ),
            ("required", arr(vec![s("lang")])),
        ]),
    };
    def.validate_args(&obj(vec![("lang", s("en"))])).unwrap();
    assert!(def.validate_args(&obj(vec![("lang", s("fr"))])).is_err());
}

#[test]
fn tool_result_text_roundtrip() {
    let r = ToolResult::text("hello");
    assert!(!r.is_error);
    assert_eq!(r.as_text(), Some("hello"));
    assert!(r.citation.is_none());
}

#[test]
fn tool_result_error_sets_flag() {
    let r = ToolResult::error("boom");
    assert!(r.is_error);
}

#[test]
fn tool_result_builder_chain() {
    let r = ToolResult::text("data").with_citation("https://example.com").with_inject(true).with_duration(42);
    assert_eq!(r.citation.as_deref(), Some("https://example.com"));
    assert!(r.inject_to_context);
    assert_eq!(r.duration_ms, Some(42));
}

#[test]
fn tool_context_extra_helpers() {
    let ctx = ToolContext::new("agent-1", "crucible").with("org_id", s("motosan")).with("budget", n(5));
    assert_eq!(ctx.get_str("org_id"), Some("motosan"));
    assert_eq!(ctx.get_u64("budget"), Some(5));
    assert_eq!(ctx.get_str("missing"), None);
}

#[test]
fn error_messages_display_with_their_kind() {
    assert_eq!(Error::MissingField("query".into()).to_text(), "missing required field: query");
    assert_eq!(Error::Validation("bad".into()).to_text(), "validation failed: bad");
    assert_eq!(Error::Parse("eof".into()).to_text(), "parse error: eof");
    assert_eq!(Error::new("plain".into()).to_text(), "plain");
    assert_eq!(Error::new("plain".into()).message(), "plain");
}

#[test]
fn schema_errors_name_the_problem() {
    let not_object = ToolDef { name: "x".into(), description: "x".into(), input_schema: s("nope") };
    assert_eq!(
        not_object.validate_input_schema().unwrap_err().message(),
        "input_schema must be a JSON object"
    );
    let wrong_type = ToolDef {
        name: "x".into(),
        description: "x".into(),
        input_schema: obj(vec![("type", s("array")), ("properties", obj(vec![]))]),
    };
    assert_eq!(wrong_type.validate_input_schema().unwrap_err().message(), "input_schema.type must be \"object\"");
    let unknown_required = ToolDef {
        name: "x".into(),
        description: "x".into(),
        input_schema: obj(vec![
            ("type", s("object")),
            ("properties", obj(vec![])),
            ("required", arr(vec![s("ghost")])),
        ]),
    };
    assert_eq!(
        unknown_required.validate_input_schema().unwrap_err().message(),
        "required field not in properties: ghost"
    );
    let required_not_array = ToolDef {
        name: "x".into(),
        description: "x".into(),
        input_schema: obj(vec![("type", s("object")), ("properties", obj(vec![])), ("required", s("a"))]),
    };
    assert_eq!(
        required_not_array.validate_input_schema().unwrap_err().message(),
        "input_schema.required must be an array"
    );
}

#[test]
fn args_errors_name_the_field() {
    let def = search_def();
    let e = def.validate_args(&obj(vec![("query", n(1))])).unwrap_err();
    assert_eq!(e.to_text(), "validation failed: field query expected type string");
    let e = def.validate_args(&s("query")).unwrap_err();
    assert_eq!(e.message(), "tool args must be a JSON object");
    let e = def.validate_args(&obj(vec![])).unwrap_err();
    assert_eq!(e.to_text(), "missing required field: query");
}

#[test]
fn valid_args_hold_required_fields_of_declared_type() {
    let def = search_def();
    let args = obj(vec![("query", s("rust")), ("max_results", n(3)), ("extra", JsonValue::Bool(true))]);
    assert!(def.validate_args(&args).is_ok());
    assert!(args.get("query").unwrap().is_string());
}

#[test]
fn context_with_replaces_existing_key() {
    let ctx = ToolContext::new("a", "p").with("k", s("one")).with("k", s("two")).with("other", JsonValue::Bool(true));
    assert_eq!(ctx.get_str("k"), Some("two"));
    assert_eq!(ctx.get_bool("other"), Some(true));
    assert_eq!(ctx.get_u64("k"), None);
    assert_eq!(ctx.extra.len(), 2);
}

#[test]
fn context_with_cwd_sets_directory() {
    let ctx = ToolContext::new("a", "p").with_cwd("/work");
    assert_eq!(ctx.cwd.as_deref(), Some("/work"));
    assert_eq!(ctx.caller_id, "a");
    assert!(ToolContext::default().cwd.is_none());
}

#[test]
fn json_result_has_no_text() {
    let r = ToolResult::json(obj(vec![("a", n(1))]));
    assert!(!r.is_error);
    assert_eq!(r.as_text(), None);
    assert!(matches!(r.content[0], ToolContent::Json(_)));
}

#[test]
fn error_kind_of_missing_field() {
    let def = search_def();
    let e = def.validate_args(&obj(vec![])).unwrap_err();
    assert!(matches!(e, Error::MissingField(ref m) if m == "query"));
    let _ = ErrorKind::MissingField;
}

#[test]
fn json_equality_ignores_entry_order() {
    let a = obj(vec![("x", n(1)), ("y", s("z"))]);
    let b = obj(vec![("y", s("z")), ("x", n(1))]);
    assert!(motosan_agent_tool::json::json_equal(&a, &b));
    assert!(!motosan_agent_tool::json::json_equal(&a, &obj(vec![("x", n(2)), ("y", s("z"))])));
}

#[test]
fn field_errors_follow_key_order_and_last_value() {
    let def = ToolDef {
        name: "t".into(),
        description: "t".into(),
        input_schema: obj(vec![
            ("type", s("object")),
            (
                "properties",
                obj(vec![("b", obj(vec![("type", s("string"))])), ("a", obj(vec![("type", s("string"))]))]),
            ),
        ]),
    };
    let e = def.validate_args(&obj(vec![("b", n(1)), ("a", n(2))])).unwrap_err();
    assert_eq!(e.message(), "field a expected type string");
    assert!(def.validate_args(&obj(vec![("a", n(1)), ("a", s("ok"))])).is_ok());
    assert!(def.validate_args(&obj(vec![("a", s("ok")), ("a", n(1))])).is_err());
}

#[test]
fn duplicate_keys_read_their_last_value() {
    let v = obj(vec![("k", n(1)), ("k", n(2))]);
    assert_eq!(v.get("k").and_then(|x| x.as_u64()), Some(2));
}

#[test]
fn enum_compares_floats_as_numbers() {
    let float = |f: f64| JsonValue::Number(JsonNumber::Float(f.to_bits()));
    let def = ToolDef {
        name: "t".into(),
        description: "t".into(),
        input_schema: obj(vec![
            ("type", s("object")),
            ("properties", obj(vec![("x", obj(vec![("enum", arr(vec![float(0.0), float(1.5)]))]))])),
        ]),
    };
    assert!(def.validate_args(&obj(vec![("x", float(-0.0))])).is_ok());
    assert!(def.validate_args(&obj(vec![("x", float(1.5))])).is_ok());
    assert!(def.validate_args(&obj(vec![("x", float(2.0))])).is_err());
    assert!(def.validate_args(&obj(vec![("x", n(0))])).is_err());
}
