//! Spec resolution: maps an analysis identifier to its script basename and
//! to the variables the identifier itself implies.
//!
//! The mapping is a total, explicit table; an identifier outside the table
//! fails fast with a message naming it, before any engine is involved.

use vstd::prelude::*;
use vstd::string::StringExecFns;

use crate::json::obj_model;
use crate::json::JsonModel;
use crate::json::JsonValue;
use crate::text::str_eq;

verus! {

/// The script basename for an analysis identifier, `None` when unknown.
pub open spec fn spec_script_for(id: Seq<char>) -> Option<Seq<char>> {
    if id == "descriptives"@ {
        Some("descriptives"@)
    } else if id == "ttest"@ || id == "ttest-one-sample"@ || id == "ttest-independent"@ || id
        == "ttest-paired"@ {
        Some("ttest"@)
    } else if id == "anova"@ || id == "anova-oneway"@ {
        Some("anova"@)
    } else if id == "correlation"@ {
        Some("correlation"@)
    } else if id == "efa"@ {
        Some("efa"@)
    } else if id == "regression"@ || id == "regression-linear"@ {
        Some("regression"@)
    } else if id == "mediation"@ {
        Some("mediation"@)
    } else if id == "moderation"@ {
        Some("moderation"@)
    } else if id == "cfa"@ {
        Some("cfa"@)
    } else if id == "path-analysis"@ {
        Some("path_analysis"@)
    } else if id == "moderated-mediation"@ || id == "moderated_mediation"@ {
        Some("moderated_mediation"@)
    } else if id == "serial-mediation"@ || id == "serial_mediation"@ {
        Some("serial_mediation"@)
    } else if id == "multigroup-cfa"@ || id == "multigroup_cfa"@ {
        Some("multigroup_cfa"@)
    } else if id == "full-sem"@ || id == "full_sem"@ {
        Some("full_sem"@)
    } else if id == "multilevel"@ || id == "multilevel-hlm"@ {
        Some("multilevel"@)
    } else if id == "process-model-8"@ || id == "process_model_8"@ {
        Some("process_model8"@)
    } else if id == "process-model-58"@ || id == "process_model_58"@ {
        Some("process_model58"@)
    } else if id == "process-model-59"@ || id == "process_model_59"@ {
        Some("process_model59"@)
    } else {
        None
    }
}

/// The message reported for an identifier outside the table.
pub open spec fn unknown_spec_message(id: Seq<char>) -> Seq<char> {
    "Unknown spec_id: '"@ + id + "'"@
}

/// Maps an analysis identifier to the corresponding script basename.
/// Unknown identifiers give an error message naming them.
pub fn spec_to_script_name(spec_id: &str) -> (r: Result<&'static str, String>)
    ensures
        r matches Ok(name) ==> spec_script_for(spec_id@) == Some(name@),
        r matches Err(msg) ==> spec_script_for(spec_id@) is None && msg@ == unknown_spec_message(
            spec_id@,
        ),
{
    if str_eq(spec_id, "descriptives") {
        Ok("descriptives")
    } else if str_eq(spec_id, "ttest") || str_eq(spec_id, "ttest-one-sample") || str_eq(
        spec_id,
        "ttest-independent",
    ) || str_eq(spec_id, "ttest-paired") {
        Ok("ttest")
    } else if str_eq(spec_id, "anova") || str_eq(spec_id, "anova-oneway") {
        Ok("anova")
    } else if str_eq(spec_id, "correlation") {
        Ok("correlation")
    } else if str_eq(spec_id, "efa") {
        Ok("efa")
    } else if str_eq(spec_id, "regression") || str_eq(spec_id, "regression-linear") {
        Ok("regression")
    } else if str_eq(spec_id, "mediation") {
        Ok("mediation")
    } else if str_eq(spec_id, "moderation") {
        Ok("moderation")
    } else if str_eq(spec_id, "cfa") {
        Ok("cfa")
    } else if str_eq(spec_id, "path-analysis") {
        Ok("path_analysis")
    } else if str_eq(spec_id, "moderated-mediation") || str_eq(spec_id, "moderated_mediation") {
        Ok("moderated_mediation")
    } else if str_eq(spec_id, "serial-mediation") || str_eq(spec_id, "serial_mediation") {
        Ok("serial_mediation")
    } else if str_eq(spec_id, "multigroup-cfa") || str_eq(spec_id, "multigroup_cfa") {
        Ok("multigroup_cfa")
    } else if str_eq(spec_id, "full-sem") || str_eq(spec_id, "full_sem") {
        Ok("full_sem")
    } else if str_eq(spec_id, "multilevel") || str_eq(spec_id, "multilevel-hlm") {
        Ok("multilevel")
    } else if str_eq(spec_id, "process-model-8") || str_eq(spec_id, "process_model_8") {
        Ok("process_model8")
    } else if str_eq(spec_id, "process-model-58") || str_eq(spec_id, "process_model_58") {
        Ok("process_model58")
    } else if str_eq(spec_id, "process-model-59") || str_eq(spec_id, "process_model_59") {
        Ok("process_model59")
    } else {
        let mut msg = String::from_str("Unknown spec_id: '");
        msg.append(spec_id);
        msg.append("'");
        Err(msg)
    }
}

/// The variables an analysis identifier itself implies.
pub open spec fn derived_vars(id: Seq<char>) -> Seq<(Seq<char>, JsonModel)> {
    if id == "ttest-one-sample"@ {
        seq![("test_type"@, JsonModel::Str("one-sample"@))]
    } else if id == "ttest-independent"@ {
        seq![("test_type"@, JsonModel::Str("independent"@))]
    } else if id == "ttest-paired"@ {
        seq![("test_type"@, JsonModel::Str("paired"@))]
    } else if id == "anova-oneway"@ {
        seq![("anova_type"@, JsonModel::Str("oneway"@))]
    } else if id == "regression-linear"@ {
        seq![("regression_type"@, JsonModel::Str("linear"@))]
    } else if id == "multilevel-hlm"@ {
        seq![("multilevel_type"@, JsonModel::Str("hlm"@))]
    } else {
        Seq::empty()
    }
}

/// Builds the one-entry list of derived variables.
fn derived_pair(key: &str, value: &str) -> (r: Vec<(String, JsonValue)>)
    ensures
        obj_model(r@) =~= seq![(key@, JsonModel::Str(value@))],
{
    let mut out: Vec<(String, JsonValue)> = Vec::new();
    out.push((String::from_str(key), JsonValue::Str(String::from_str(value))));
    out
}

/// Extracts the variables implied by the analysis identifier itself.
pub fn extract_spec_variables(spec_id: &str) -> (r: Vec<(String, JsonValue)>)
    ensures
        obj_model(r@) == derived_vars(spec_id@),
{
    let r: Vec<(String, JsonValue)> = if str_eq(spec_id, "ttest-one-sample") {
        derived_pair("test_type", "one-sample")
    } else if str_eq(spec_id, "ttest-independent") {
        derived_pair("test_type", "independent")
    } else if str_eq(spec_id, "ttest-paired") {
        derived_pair("test_type", "paired")
    } else if str_eq(spec_id, "anova-oneway") {
        derived_pair("anova_type", "oneway")
    } else if str_eq(spec_id, "regression-linear") {
        derived_pair("regression_type", "linear")
    } else if str_eq(spec_id, "multilevel-hlm") {
        derived_pair("multilevel_type", "hlm")
    } else {
        Vec::new()
    };
    proof {
        assert(obj_model(r@) =~= derived_vars(spec_id@));
    }
    r
}

/// Resolution is total over the table and pure: what an identifier maps
/// to is decided by the identifier alone, an identifier outside the table
/// derives no variables, and no identifier derives more than one.
pub proof fn lemma_spec_resolution_total(id: Seq<char>)
    ensures
        spec_script_for(id) is None ==> derived_vars(id) == Seq::<(Seq<char>, JsonModel)>::empty(),
        derived_vars(id).len() <= 1,
{
    if spec_script_for(id) is None {
        assert(derived_vars(id) =~= Seq::<(Seq<char>, JsonModel)>::empty());
    }
}

} // verus!
