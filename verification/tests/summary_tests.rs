use method_studio::json::JsonValue;
use method_studio::summary::generate_script_summary;

fn slot(names: &[&str]) -> JsonValue {
    JsonValue::Arr(names.iter().map(|n| JsonValue::Str(n.to_string())).collect())
}

#[test]
fn descriptives_summary_both_engines() {
    let variables = vec![("variables".to_string(), slot(&["age", "income"]))];
    let options = JsonValue::Obj(vec![]);
    assert_eq!(
        generate_script_summary("descriptives", "r", &variables, &options),
        "# Descriptive Statistics\n# Variables: age, income\n\ndescribe(data[, c(age, income)])"
    );
    assert_eq!(
        generate_script_summary("descriptives", "python", &variables, &options),
        "# Descriptive Statistics\n# Variables: age, income\n\ndf[[age, income]].describe()"
    );
}

#[test]
fn one_sample_ttest_reads_the_test_value_option() {
    let variables = vec![("testVariables".to_string(), slot(&["score"]))];
    let options = JsonValue::Obj(vec![(
        "testValue".to_string(),
        JsonValue::Num("100".to_string()),
    )]);
    assert_eq!(
        generate_script_summary("ttest-one-sample", "r", &variables, &options),
        "# One-Sample T-Test\n# Variable: score\n# Test value: 100\n\nt.test(score, mu = 100)"
    );
    // A missing option falls back to its default.
    let no_options = JsonValue::Obj(vec![]);
    assert_eq!(
        generate_script_summary("ttest-one-sample", "python", &variables, &no_options),
        "# One-Sample T-Test\n# Variable: score\n# Test value: 0\n\nstats.ttest_1samp(score, 0)"
    );
}

#[test]
fn independent_ttest_names_groups() {
    let variables = vec![
        ("testVariables".to_string(), slot(&["score"])),
        ("groupingVariable".to_string(), slot(&["cond"])),
    ];
    let options = JsonValue::Obj(vec![
        ("group1Value".to_string(), JsonValue::Str("ctl".to_string())),
        ("group2Value".to_string(), JsonValue::Str("exp".to_string())),
    ]);
    assert_eq!(
        generate_script_summary("ttest-independent", "r", &variables, &options),
        "# Independent-Samples T-Test\n# Variable: score\n# Grouping: cond (groups: ctl, exp)\n\nt.test(score ~ cond)"
    );
}

#[test]
fn anova_and_regression_summaries() {
    let variables = vec![
        ("dependentVariable".to_string(), slot(&["y"])),
        ("factor".to_string(), slot(&["g"])),
        ("predictors".to_string(), slot(&["x1", "x2"])),
    ];
    let options = JsonValue::Obj(vec![]);
    assert_eq!(
        generate_script_summary("anova", "r", &variables, &options),
        "# One-Way ANOVA\n# Dependent: y\n# Factor: g\n\naov(y ~ g, data = df)"
    );
    assert_eq!(
        generate_script_summary("regression-linear", "r", &variables, &options),
        "# Linear Regression\n# Dependent: y\n# Predictors: x1 + x2\n\nlm(y ~ x1 + x2, data = df)"
    );
    assert_eq!(
        generate_script_summary("regression", "python", &variables, &options),
        "# Linear Regression\n# Dependent: y\n# Predictors: x1 + x2\n\nsm.OLS(y, X).fit()"
    );
}

#[test]
fn efa_and_correlation_summaries() {
    let variables = vec![("variables".to_string(), slot(&["v1", "v2", "v3"]))];
    let options = JsonValue::Obj(vec![(
        "nFactors".to_string(),
        JsonValue::Num("2".to_string()),
    )]);
    assert_eq!(
        generate_script_summary("efa", "r", &variables, &options),
        "# Exploratory Factor Analysis\n# Variables: v1, v2, v3\n# Factors: 2\n\nfa(data, nfactors = 2)"
    );
    assert_eq!(
        generate_script_summary("correlation", "python", &variables, &options),
        "# Correlation Analysis\n# Variables: v1, v2, v3\n\ndf[[v1, v2, v3]].corr()"
    );
}

#[test]
fn unknown_identifiers_get_the_generic_summary() {
    let variables: Vec<(String, JsonValue)> = Vec::new();
    let options = JsonValue::Null;
    assert_eq!(
        generate_script_summary("mediation", "R", &variables, &options),
        "# Analysis: mediation\n# Engine: R"
    );
}
