use method_studio::dispatch::assemble_request_data;
use method_studio::dispatch::build_python_request_line;
use method_studio::dispatch::build_r_request_line;
use method_studio::dispatch::request_from_json;
use method_studio::engine::parse_engine;
use method_studio::engine::Engine;
use method_studio::json::JsonValue;
use method_studio::parse::parse_json;
use method_studio::ser::to_json_string;
use method_studio::summary::generate_script_summary;
use method_studio::text::format_request_id;

fn st(t: &str) -> JsonValue {
    JsonValue::Str(t.to_string())
}

fn lookup<'a>(ns: &'a [(String, JsonValue)], key: &str) -> Option<&'a JsonValue> {
    ns.iter().rev().find(|(k, _)| k == key).map(|(_, v)| v)
}

#[test]
fn end_to_end_paired_ttest_namespace_and_summary() {
    // Three rows, each holding keys a and b.
    let row = |x: &str, y: &str| {
        JsonValue::Obj(vec![
            ("a".to_string(), JsonValue::Num(x.to_string())),
            ("b".to_string(), JsonValue::Num(y.to_string())),
        ])
    };
    let data = vec![row("1", "4"), row("2", "5"), row("3", "6")];
    let variables = vec![
        ("variable1".to_string(), JsonValue::Arr(vec![st("a")])),
        ("variable2".to_string(), JsonValue::Arr(vec![st("b")])),
    ];
    let options = JsonValue::Obj(vec![]);
    let (ns, warns) = assemble_request_data("ttest-paired", &variables, &options, &data);
    assert!(warns.is_empty());
    assert_eq!(to_json_string(lookup(&ns, "a").unwrap()), "[1,2,3]");
    assert_eq!(to_json_string(lookup(&ns, "b").unwrap()), "[4,5,6]");
    // The paired variant derives its own tag; the one-sample pair is absent.
    assert_eq!(to_json_string(lookup(&ns, "test_type").unwrap()), "\"paired\"");
    assert!(!ns
        .iter()
        .any(|(_, v)| matches!(v, JsonValue::Str(s) if s == "one-sample")));
    let summary = generate_script_summary("ttest-paired", "r", &variables, &options);
    assert!(summary.contains("a"));
    assert!(summary.contains("b"));
    assert!(summary.contains("Paired"));
    assert_eq!(
        summary,
        "# Paired-Samples T-Test\n# Variables: a vs b\n\nt.test(a, b, paired = TRUE)"
    );
}

#[test]
fn r_request_line_is_exact() {
    let ns = vec![("x".to_string(), JsonValue::Num("1".to_string()))];
    let line = build_r_request_line("ttest", "id-1", ns);
    assert_eq!(
        line,
        "{\"jsonrpc\":\"2.0\",\"id\":\"id-1\",\"method\":\"execute\",\"params\":{\"script\":\"source_bundled('ttest.R')\\nresult\",\"data\":{\"x\":1},\"packages\":[]}}"
    );
    // The line is itself valid JSON.
    assert!(parse_json(&line).is_some());
}

#[test]
fn python_request_line_carries_script_path() {
    let ns = vec![("x".to_string(), JsonValue::Num("1".to_string()))];
    let line = build_python_request_line("/tmp/scripts/ttest.py", "id-2", ns);
    assert_eq!(
        line,
        "{\"id\":\"id-2\",\"script\":\"\",\"data\":{\"x\":1,\"__script_path__\":\"/tmp/scripts/ttest.py\"},\"packages\":[]}"
    );
}

#[test]
fn script_path_overrides_namespace_entry() {
    // A namespace entry under the script path's key never displaces it.
    let ns = vec![(
        "__script_path__".to_string(),
        JsonValue::Str("override".to_string()),
    )];
    let line = build_python_request_line("/real/path.py", "id-3", ns);
    assert_eq!(
        line,
        "{\"id\":\"id-3\",\"script\":\"\",\"data\":{\"__script_path__\":\"/real/path.py\"},\"packages\":[]}"
    );
}

#[test]
fn engines_parse_case_insensitively() {
    assert_eq!(parse_engine("r"), Some(Engine::R));
    assert_eq!(parse_engine("R"), Some(Engine::R));
    assert_eq!(parse_engine("python"), Some(Engine::Python));
    assert_eq!(parse_engine("Python"), Some(Engine::Python));
    assert_eq!(parse_engine("julia"), None);
}

#[test]
fn request_ids_join_timestamp_and_pid() {
    assert_eq!(format_request_id(0, 0), "0-0");
    assert_eq!(format_request_id(1699999999123456789, 4242), "1699999999123456789-4242");
}

#[test]
fn requests_parse_from_json() {
    let text = "{\"specId\":\"ttest-paired\",\"variables\":{\"variable1\":[\"a\"]},\"options\":{},\"engine\":\"r\",\"data\":[{\"a\":1}],\"datasetName\":\"demo\"}";
    let v = parse_json(text).expect("parses");
    let req = request_from_json(&v).expect("valid request");
    assert_eq!(req.spec_id, "ttest-paired");
    assert_eq!(req.engine, "r");
    assert_eq!(req.dataset_name, "demo");
    assert_eq!(req.variables.len(), 1);
    assert_eq!(req.data.len(), 1);
}

#[test]
fn request_without_dataset_name_defaults_empty() {
    let text = "{\"specId\":\"efa\",\"variables\":{},\"options\":null,\"engine\":\"python\",\"data\":[]}";
    let v = parse_json(text).expect("parses");
    let req = request_from_json(&v).expect("valid request");
    assert_eq!(req.dataset_name, "");
}

#[test]
fn malformed_requests_name_the_field() {
    let v = parse_json("{\"variables\":{},\"options\":{},\"engine\":\"r\",\"data\":[]}").unwrap();
    let err = request_from_json(&v).unwrap_err();
    assert!(err.contains("specId"));
    let v2 = parse_json("{\"specId\":\"efa\",\"variables\":3,\"options\":{},\"engine\":\"r\",\"data\":[]}")
        .unwrap();
    let err2 = request_from_json(&v2).unwrap_err();
    assert!(err2.contains("variables"));
    let v3 = parse_json("{\"specId\":\"efa\",\"variables\":{},\"options\":{},\"engine\":\"r\",\"data\":{}}")
        .unwrap();
    let err3 = request_from_json(&v3).unwrap_err();
    assert!(err3.contains("data"));
}
