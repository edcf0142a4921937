use method_studio::json::JsonValue;
use method_studio::resolve::extract_spec_variables;
use method_studio::resolve::spec_to_script_name;

#[test]
fn known_identifiers_resolve() {
    assert_eq!(spec_to_script_name("descriptives"), Ok("descriptives"));
    assert_eq!(spec_to_script_name("ttest"), Ok("ttest"));
    assert_eq!(spec_to_script_name("ttest-one-sample"), Ok("ttest"));
    assert_eq!(spec_to_script_name("ttest-independent"), Ok("ttest"));
    assert_eq!(spec_to_script_name("ttest-paired"), Ok("ttest"));
    assert_eq!(spec_to_script_name("anova"), Ok("anova"));
    assert_eq!(spec_to_script_name("anova-oneway"), Ok("anova"));
    assert_eq!(spec_to_script_name("correlation"), Ok("correlation"));
    assert_eq!(spec_to_script_name("efa"), Ok("efa"));
    assert_eq!(spec_to_script_name("regression"), Ok("regression"));
    assert_eq!(spec_to_script_name("regression-linear"), Ok("regression"));
    assert_eq!(spec_to_script_name("mediation"), Ok("mediation"));
    assert_eq!(spec_to_script_name("moderation"), Ok("moderation"));
    assert_eq!(spec_to_script_name("cfa"), Ok("cfa"));
    assert_eq!(spec_to_script_name("path-analysis"), Ok("path_analysis"));
    assert_eq!(
        spec_to_script_name("moderated-mediation"),
        Ok("moderated_mediation")
    );
    assert_eq!(
        spec_to_script_name("moderated_mediation"),
        Ok("moderated_mediation")
    );
    assert_eq!(spec_to_script_name("serial-mediation"), Ok("serial_mediation"));
    assert_eq!(spec_to_script_name("multigroup-cfa"), Ok("multigroup_cfa"));
    assert_eq!(spec_to_script_name("full-sem"), Ok("full_sem"));
    assert_eq!(spec_to_script_name("full_sem"), Ok("full_sem"));
    assert_eq!(spec_to_script_name("multilevel"), Ok("multilevel"));
    assert_eq!(spec_to_script_name("multilevel-hlm"), Ok("multilevel"));
    assert_eq!(spec_to_script_name("process-model-8"), Ok("process_model8"));
    assert_eq!(spec_to_script_name("process-model-58"), Ok("process_model58"));
    assert_eq!(spec_to_script_name("process_model_59"), Ok("process_model59"));
}

#[test]
fn unknown_identifier_names_itself() {
    let err = spec_to_script_name("cluster-analysis").unwrap_err();
    assert_eq!(err, "Unknown spec_id: 'cluster-analysis'");
    // Resolution is pure: the same identifier answers the same way again.
    let err2 = spec_to_script_name("cluster-analysis").unwrap_err();
    assert_eq!(err, err2);
}

fn derived_pairs(spec_id: &str) -> Vec<(String, String)> {
    extract_spec_variables(spec_id)
        .into_iter()
        .map(|(k, v)| match v {
            JsonValue::Str(s) => (k, s),
            _ => panic!("derived variable is not a string"),
        })
        .collect()
}

#[test]
fn derived_variables_follow_the_table() {
    assert_eq!(
        derived_pairs("ttest-one-sample"),
        vec![("test_type".to_string(), "one-sample".to_string())]
    );
    assert_eq!(
        derived_pairs("ttest-independent"),
        vec![("test_type".to_string(), "independent".to_string())]
    );
    assert_eq!(
        derived_pairs("ttest-paired"),
        vec![("test_type".to_string(), "paired".to_string())]
    );
    assert_eq!(
        derived_pairs("anova-oneway"),
        vec![("anova_type".to_string(), "oneway".to_string())]
    );
    assert_eq!(
        derived_pairs("regression-linear"),
        vec![("regression_type".to_string(), "linear".to_string())]
    );
    assert_eq!(
        derived_pairs("multilevel-hlm"),
        vec![("multilevel_type".to_string(), "hlm".to_string())]
    );
    assert!(derived_pairs("descriptives").is_empty());
    assert!(derived_pairs("ttest").is_empty());
}
