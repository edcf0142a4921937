use method_studio::json::JsonValue;
use method_studio::parse::parse_json;
use method_studio::ser::to_json_string;

fn obj(entries: Vec<(&str, JsonValue)>) -> JsonValue {
    JsonValue::Obj(
        entries
            .into_iter()
            .map(|(k, v)| (k.to_string(), v))
            .collect(),
    )
}

fn num(t: &str) -> JsonValue {
    JsonValue::Num(t.to_string())
}

fn st(t: &str) -> JsonValue {
    JsonValue::Str(t.to_string())
}

#[test]
fn serializes_scalars() {
    assert_eq!(to_json_string(&JsonValue::Null), "null");
    assert_eq!(to_json_string(&JsonValue::Bool(true)), "true");
    assert_eq!(to_json_string(&JsonValue::Bool(false)), "false");
    assert_eq!(to_json_string(&num("42")), "42");
    assert_eq!(to_json_string(&num("-1.5e3")), "-1.5e3");
    assert_eq!(to_json_string(&st("ok")), "\"ok\"");
}

#[test]
fn serializes_structures() {
    let v = obj(vec![
        ("a", JsonValue::Arr(vec![num("1"), JsonValue::Null, st("x")])),
        ("b", obj(vec![])),
    ]);
    assert_eq!(to_json_string(&v), "{\"a\":[1,null,\"x\"],\"b\":{}}");
    assert_eq!(to_json_string(&JsonValue::Arr(vec![])), "[]");
}

#[test]
fn serializes_escapes() {
    assert_eq!(to_json_string(&st("a\"b")), "\"a\\\"b\"");
    assert_eq!(to_json_string(&st("a\\b")), "\"a\\\\b\"");
    assert_eq!(to_json_string(&st("a\nb\tc\r")), "\"a\\nb\\tc\\r\"");
    assert_eq!(to_json_string(&st("\u{1}")), "\"\\u0001\"");
    assert_eq!(to_json_string(&st("\u{1f}")), "\"\\u001f\"");
    // Characters above the control range pass through verbatim.
    assert_eq!(to_json_string(&st("héllo")), "\"héllo\"");
}

#[test]
fn parses_scalars() {
    assert!(matches!(parse_json("null"), Some(JsonValue::Null)));
    assert!(matches!(parse_json("true"), Some(JsonValue::Bool(true))));
    assert!(matches!(parse_json("false"), Some(JsonValue::Bool(false))));
    match parse_json("42") {
        Some(JsonValue::Num(t)) => assert_eq!(t, "42"),
        other => panic!("unexpected: {:?}", other),
    }
    match parse_json("  -1.5e3  ") {
        Some(JsonValue::Num(t)) => assert_eq!(t, "-1.5e3"),
        other => panic!("unexpected: {:?}", other),
    }
}

#[test]
fn parses_strings_and_escapes() {
    match parse_json("\"a\\nb\"") {
        Some(JsonValue::Str(t)) => assert_eq!(t, "a\nb"),
        other => panic!("unexpected: {:?}", other),
    }
    match parse_json("\"\\u0041\\u00e9\"") {
        Some(JsonValue::Str(t)) => assert_eq!(t, "Aé"),
        other => panic!("unexpected: {:?}", other),
    }
    // A surrogate pair decodes to one character.
    match parse_json("\"\\ud83d\\ude00\"") {
        Some(JsonValue::Str(t)) => assert_eq!(t, "\u{1f600}"),
        other => panic!("unexpected: {:?}", other),
    }
    // A lone surrogate is refused.
    assert!(parse_json("\"\\ud83d\"").is_none());
}

#[test]
fn parses_structures() {
    let v = parse_json(" {\"a\": [1, null, \"x\"], \"b\": {}} ").expect("parses");
    assert_eq!(to_json_string(&v), "{\"a\":[1,null,\"x\"],\"b\":{}}");
}

#[test]
fn duplicate_object_keys_last_wins() {
    let v = parse_json("{\"a\":1,\"a\":2}").expect("parses");
    assert_eq!(to_json_string(&v), "{\"a\":2}");
}

#[test]
fn rejects_malformed_documents() {
    assert!(parse_json("not json").is_none());
    assert!(parse_json("").is_none());
    assert!(parse_json("{").is_none());
    assert!(parse_json("[1,]").is_none());
    assert!(parse_json("{\"a\" 1}").is_none());
    assert!(parse_json("\"unterminated").is_none());
    assert!(parse_json("1 2").is_none());
}

#[test]
fn round_trips_through_text() {
    let v = obj(vec![
        ("msg", st("line1\nline2 \"quoted\"")),
        ("n", num("3.25")),
        ("flags", JsonValue::Arr(vec![JsonValue::Bool(true), JsonValue::Null])),
    ]);
    let text = to_json_string(&v);
    let back = parse_json(&text).expect("parses back");
    assert_eq!(to_json_string(&back), text);
}
