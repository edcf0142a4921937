use method_studio::json::JsonValue;
use method_studio::normalize::normalize_python_output;
use method_studio::normalize::normalize_r_output;

#[test]
fn r_success_envelope_round_trip() {
    let raw = "{\"result\":{\"value\":42,\"output\":\"ok\",\"plots\":[\"AAA\"]}}";
    let res = normalize_r_output(raw, "", "s".to_string(), "m".to_string()).expect("no transport error");
    assert!(res.success);
    match res.result {
        Some(JsonValue::Num(t)) => assert_eq!(t, "42"),
        other => panic!("unexpected result: {:?}", other),
    }
    assert_eq!(res.output, "ok");
    assert_eq!(res.plots, vec!["AAA".to_string()]);
    assert!(res.error.is_none());
}

#[test]
fn r_error_envelope_becomes_failure() {
    let raw = "{\"error\":{\"message\":\"object not found\"}}";
    let res = normalize_r_output(raw, "", "s".to_string(), "m".to_string()).expect("no transport error");
    assert!(!res.success);
    assert!(res.result.is_none());
    assert_eq!(res.output, "");
    assert!(res.plots.is_empty());
    assert_eq!(res.error.as_deref(), Some("object not found"));
    assert_eq!(res.script.as_deref(), Some("s"));
    assert_eq!(res.script_summary.as_deref(), Some("m"));
}

#[test]
fn r_error_without_message_gets_fallback() {
    let raw = "{\"error\":{}}";
    let res = normalize_r_output(raw, "", "s".to_string(), "m".to_string()).expect("no transport error");
    assert!(!res.success);
    assert_eq!(res.error.as_deref(), Some("Unknown R error"));
}

#[test]
fn python_failure_envelope_round_trip() {
    let raw = "{\"success\":false,\"error\":\"boom\",\"output\":\"partial\"}";
    let res =
        normalize_python_output(raw, "", "s".to_string(), "m".to_string()).expect("no transport error");
    assert!(!res.success);
    assert!(res.result.is_none());
    assert_eq!(res.output, "partial");
    assert_eq!(res.error.as_deref(), Some("boom"));
    assert!(res.plots.is_empty());
}

#[test]
fn python_success_envelope_round_trip() {
    let raw = "{\"success\":true,\"result\":{\"p\":0.04},\"output\":\"done\",\"plots\":[\"X\",\"Y\"]}";
    let res =
        normalize_python_output(raw, "", "s".to_string(), "m".to_string()).expect("no transport error");
    assert!(res.success);
    assert!(res.result.is_some());
    assert_eq!(res.output, "done");
    assert_eq!(res.plots, vec!["X".to_string(), "Y".to_string()]);
    assert!(res.error.is_none());
}

#[test]
fn python_missing_success_flag_fails() {
    let raw = "{\"output\":\"hm\"}";
    let res =
        normalize_python_output(raw, "", "s".to_string(), "m".to_string()).expect("no transport error");
    assert!(!res.success);
    assert_eq!(res.error.as_deref(), Some("Unknown Python error"));
    assert_eq!(res.output, "hm");
}

#[test]
fn unparseable_output_is_a_transport_error() {
    let err = normalize_r_output("not json", "stderr text", "s".to_string(), "m".to_string())
        .expect_err("transport error");
    assert!(err.contains("not json"));
    assert!(err.contains("stderr text"));
    let err2 = normalize_python_output("not json", "", "s".to_string(), "m".to_string())
        .expect_err("transport error");
    assert!(err2.contains("not json"));
}

#[test]
fn transport_error_keeps_the_raw_output_verbatim() {
    // Parsing works on the trimmed text, the message carries the raw one.
    let raw = "  not json \n";
    let err = normalize_r_output(raw, "e", "s".to_string(), "m".to_string())
        .expect_err("transport error");
    assert!(err.contains(raw));
    assert_eq!(
        err,
        "Failed to parse R wrapper response. Raw:   not json \n. Stderr: e"
    );
    // Surrounding whitespace alone does not defeat parsing.
    let ok = normalize_r_output("  {\"result\":{}} \n", "", "s".to_string(), "m".to_string());
    assert!(ok.is_ok());
}

#[test]
fn plots_keep_only_strings() {
    let raw = "{\"result\":{\"value\":null,\"output\":\"\",\"plots\":[\"A\",3,\"B\",null]}}";
    let res = normalize_r_output(raw, "", "s".to_string(), "m".to_string()).expect("no transport error");
    assert_eq!(res.plots, vec!["A".to_string(), "B".to_string()]);
}
