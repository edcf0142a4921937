use method_studio::assemble::merge_namespace;
use method_studio::assemble::NamespaceSource;
use method_studio::json::JsonValue;
use method_studio::ser::to_json_string;

fn st(t: &str) -> JsonValue {
    JsonValue::Str(t.to_string())
}

fn lookup<'a>(ns: &'a [(String, JsonValue)], key: &str) -> Option<&'a JsonValue> {
    ns.iter().rev().find(|(k, _)| k == key).map(|(_, v)| v)
}

#[test]
fn highest_precedence_source_wins() {
    // The same key in all four sources: the spec-derived value wins.
    let cols = vec![("x".to_string(), vec![st("from-columns")])];
    let vars = vec![("x".to_string(), st("from-variables"))];
    let options = JsonValue::Obj(vec![("x".to_string(), st("from-options"))]);
    let derived = vec![("x".to_string(), st("from-derived"))];
    let (ns, warns) = merge_namespace(&cols, &vars, &options, &derived);
    assert_eq!(to_json_string(lookup(&ns, "x").unwrap()), "\"from-derived\"");
    // Three overwrites happened, one per later source holding the key.
    assert_eq!(warns.len(), 3);
    assert!(warns.iter().all(|w| w.key == "x"));
    assert_eq!(warns[0].source, NamespaceSource::Variables);
    assert_eq!(warns[1].source, NamespaceSource::Options);
    assert_eq!(warns[2].source, NamespaceSource::SpecDerived);
}

#[test]
fn one_warning_per_two_source_collision() {
    let cols = vec![("x".to_string(), vec![st("col")])];
    let vars: Vec<(String, JsonValue)> = Vec::new();
    let options = JsonValue::Obj(vec![("x".to_string(), st("opt"))]);
    let derived: Vec<(String, JsonValue)> = Vec::new();
    let (ns, warns) = merge_namespace(&cols, &vars, &options, &derived);
    assert_eq!(to_json_string(lookup(&ns, "x").unwrap()), "\"opt\"");
    assert_eq!(warns.len(), 1);
    assert_eq!(warns[0].key, "x");
    assert_eq!(warns[0].source, NamespaceSource::Options);
}

#[test]
fn disjoint_sources_merge_without_warnings() {
    let cols = vec![("a".to_string(), vec![st("1")])];
    let vars = vec![("b".to_string(), st("2"))];
    let options = JsonValue::Obj(vec![("c".to_string(), st("3"))]);
    let derived = vec![("d".to_string(), st("4"))];
    let (ns, warns) = merge_namespace(&cols, &vars, &options, &derived);
    assert!(warns.is_empty());
    assert_eq!(ns.len(), 4);
    assert_eq!(to_json_string(lookup(&ns, "a").unwrap()), "[\"1\"]");
    assert_eq!(to_json_string(lookup(&ns, "b").unwrap()), "\"2\"");
    assert_eq!(to_json_string(lookup(&ns, "c").unwrap()), "\"3\"");
    assert_eq!(to_json_string(lookup(&ns, "d").unwrap()), "\"4\"");
}

#[test]
fn non_object_options_contribute_nothing() {
    let cols = vec![("a".to_string(), vec![st("1")])];
    let vars: Vec<(String, JsonValue)> = Vec::new();
    let options = st("just a string");
    let derived: Vec<(String, JsonValue)> = Vec::new();
    let (ns, warns) = merge_namespace(&cols, &vars, &options, &derived);
    assert!(warns.is_empty());
    assert_eq!(ns.len(), 1);
    assert!(lookup(&ns, "just a string").is_none());
}
