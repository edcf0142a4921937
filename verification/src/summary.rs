//! Script summaries: a human-readable sketch of the statistical call an
//! analysis identifier implies, in engine-appropriate pseudo-syntax.
//!
//! The summary is display-only; nothing validates or drives execution with
//! it.

use vstd::prelude::*;
use vstd::string::StringExecFns;

use crate::json::arr_model;
use crate::json::entries_get;
use crate::json::model_get;
use crate::json::obj_lookup;
use crate::json::obj_model;
use crate::json::collect_strings;
use crate::json::str_items;
use crate::json::strs_model;
use crate::json::JsonModel;
use crate::json::JsonValue;
use crate::ser::json_text;
use crate::ser::to_json_string;
use crate::text::lower_chars;
use crate::text::spec_join;
use crate::text::join_strs;
use crate::text::str_eq;
use crate::text::to_ascii_lower;

verus! {

/// The names a variable slot holds: the string items of its array value.
pub open spec fn vars_list(vars_e: Seq<(Seq<char>, JsonModel)>, key: Seq<char>) -> Seq<Seq<char>> {
    match entries_get(vars_e, key) {
        Some(v) => match v {
            JsonModel::Arr(items) => str_items(items),
            _ => Seq::empty(),
        },
        None => Seq::empty(),
    }
}

/// The display text of an option: a string verbatim, anything else as its
/// JSON text.
pub open spec fn option_text(opts_m: JsonModel, key: Seq<char>) -> Option<Seq<char>> {
    match model_get(opts_m, key) {
        Some(v) => Some(
            if v is Str {
                v->Str_0
            } else {
                json_text(v)
            },
        ),
        None => None,
    }
}

/// An option's display text, or a default.
pub open spec fn option_or(opts_m: JsonModel, key: Seq<char>, dflt: Seq<char>) -> Seq<char> {
    match option_text(opts_m, key) {
        Some(t) => t,
        None => dflt,
    }
}

/// The summary text for an analysis identifier, engine, variables and
/// options.
pub open spec fn summary_text(
    id: Seq<char>,
    engine: Seq<char>,
    vars_e: Seq<(Seq<char>, JsonModel)>,
    opts_m: JsonModel,
) -> Seq<char> {
    let is_r = lower_chars(engine) == "r"@;
    if id == "descriptives"@ {
        let vars = spec_join(vars_list(vars_e, "variables"@), ", "@);
        if is_r {
            "# Descriptive Statistics\n# Variables: "@ + vars + "\n\ndescribe(data[, c("@ + vars
                + ")])"@
        } else {
            "# Descriptive Statistics\n# Variables: "@ + vars + "\n\ndf[["@ + vars
                + "]].describe()"@
        }
    } else if id == "ttest-one-sample"@ {
        let vars = spec_join(vars_list(vars_e, "testVariables"@), ", "@);
        let tv = option_or(opts_m, "testValue"@, "0"@);
        if is_r {
            "# One-Sample T-Test\n# Variable: "@ + vars + "\n# Test value: "@ + tv + "\n\nt.test("@
                + vars + ", mu = "@ + tv + ")"@
        } else {
            "# One-Sample T-Test\n# Variable: "@ + vars + "\n# Test value: "@ + tv
                + "\n\nstats.ttest_1samp("@ + vars + ", "@ + tv + ")"@
        }
    } else if id == "ttest-independent"@ {
        let vars = spec_join(vars_list(vars_e, "testVariables"@), ", "@);
        let group = spec_join(vars_list(vars_e, "groupingVariable"@), ""@);
        let g1 = option_or(opts_m, "group1Value"@, "1"@);
        let g2 = option_or(opts_m, "group2Value"@, "2"@);
        if is_r {
            "# Independent-Samples T-Test\n# Variable: "@ + vars + "\n# Grouping: "@ + group
                + " (groups: "@ + g1 + ", "@ + g2 + ")\n\nt.test("@ + vars + " ~ "@ + group + ")"@
        } else {
            "# Independent-Samples T-Test\n# Variable: "@ + vars + "\n# Grouping: "@ + group
                + " (groups: "@ + g1 + ", "@ + g2 + ")\n\nstats.ttest_ind(group1, group2)"@
        }
    } else if id == "ttest-paired"@ {
        let v1 = spec_join(vars_list(vars_e, "variable1"@), ""@);
        let v2 = spec_join(vars_list(vars_e, "variable2"@), ""@);
        if is_r {
            "# Paired-Samples T-Test\n# Variables: "@ + v1 + " vs "@ + v2 + "\n\nt.test("@ + v1
                + ", "@ + v2 + ", paired = TRUE)"@
        } else {
            "# Paired-Samples T-Test\n# Variables: "@ + v1 + " vs "@ + v2 + "\n\nstats.ttest_rel("@
                + v1 + ", "@ + v2 + ")"@
        }
    } else if id == "anova"@ || id == "anova-oneway"@ {
        let dep = spec_join(vars_list(vars_e, "dependentVariable"@), ""@);
        let factor = spec_join(vars_list(vars_e, "factor"@), ""@);
        if is_r {
            "# One-Way ANOVA\n# Dependent: "@ + dep + "\n# Factor: "@ + factor + "\n\naov("@ + dep
                + " ~ "@ + factor + ", data = df)"@
        } else {
            "# One-Way ANOVA\n# Dependent: "@ + dep + "\n# Factor: "@ + factor
                + "\n\nstats.f_oneway(*groups)"@
        }
    } else if id == "correlation"@ {
        let vars = spec_join(vars_list(vars_e, "variables"@), ", "@);
        if is_r {
            "# Correlation Analysis\n# Variables: "@ + vars + "\n\ncor(data[, c("@ + vars + ")])"@
        } else {
            "# Correlation Analysis\n# Variables: "@ + vars + "\n\ndf[["@ + vars + "]].corr()"@
        }
    } else if id == "efa"@ {
        let vars = spec_join(vars_list(vars_e, "variables"@), ", "@);
        let nf = option_or(opts_m, "nFactors"@, "3"@);
        if is_r {
            "# Exploratory Factor Analysis\n# Variables: "@ + vars + "\n# Factors: "@ + nf
                + "\n\nfa(data, nfactors = "@ + nf + ")"@
        } else {
            "# Exploratory Factor Analysis\n# Variables: "@ + vars + "\n# Factors: "@ + nf
                + "\n\nFactorAnalyzer(n_factors="@ + nf + ").fit(data)"@
        }
    } else if id == "regression"@ || id == "regression-linear"@ {
        let dep = spec_join(vars_list(vars_e, "dependentVariable"@), ""@);
        let preds = spec_join(vars_list(vars_e, "predictors"@), " + "@);
        if is_r {
            "# Linear Regression\n# Dependent: "@ + dep + "\n# Predictors: "@ + preds + "\n\nlm("@
                + dep + " ~ "@ + preds + ", data = df)"@
        } else {
            "# Linear Regression\n# Dependent: "@ + dep + "\n# Predictors: "@ + preds
                + "\n\nsm.OLS(y, X).fit()"@
        }
    } else {
        "# Analysis: "@ + id + "\n# Engine: "@ + engine
    }
}

/// The names a variable slot holds.
fn get_vars(vars: &Vec<(String, JsonValue)>, key: &str) -> (r: Vec<String>)
    ensures
        strs_model(r@) == vars_list(obj_model(vars@), key@),
{
    let r: Vec<String> = match obj_lookup(vars, key) {
        Some(v) => match v {
            JsonValue::Arr(items) => {
                proof {
                    assert(v@ == JsonModel::Arr(arr_model(items@)));
                }
                collect_strings(items)
            },
            _ => Vec::new(),
        },
        None => Vec::new(),
    };
    proof {
        assert(strs_model(r@) =~= vars_list(obj_model(vars@), key@));
    }
    r
}

/// The names a variable slot holds, joined with a separator.
fn get_joined(vars: &Vec<(String, JsonValue)>, key: &str, sep: &str) -> (r: String)
    ensures
        r@ == spec_join(vars_list(obj_model(vars@), key@), sep@),
{
    let items = get_vars(vars, key);
    let r = join_strs(&items, sep);
    proof {
        assert(items@.map_values(|s: String| s@) =~= strs_model(items@));
    }
    r
}

/// The display text of an option, when present.
fn get_option(options: &JsonValue, key: &str) -> (r: Option<String>)
    ensures
        match r {
            Some(t) => option_text(options@, key@) == Some(t@),
            None => option_text(options@, key@) is None,
        },
{
    match options {
        JsonValue::Obj(entries) => {
            proof {
                assert(options@ == JsonModel::Obj(obj_model(entries@)));
            }
            match obj_lookup(entries, key) {
                Some(v) => match v {
                    JsonValue::Str(t) => Some(t.clone()),
                    _ => Some(to_json_string(v)),
                },
                None => None,
            }
        },
        _ => None,
    }
}

/// The display text of an option, or the default.
fn get_option_or(options: &JsonValue, key: &str, dflt: &str) -> (r: String)
    ensures
        r@ == option_or(options@, key@, dflt@),
{
    match get_option(options, key) {
        Some(t) => t,
        None => String::from_str(dflt),
    }
}

/// Builds the summary for the analysis the identifier names, in the
/// engine's pseudo-syntax, from the supplied variables and options.
pub fn generate_script_summary(
    spec_id: &str,
    engine: &str,
    variables: &Vec<(String, JsonValue)>,
    options: &JsonValue,
) -> (r: String)
    ensures
        r@ == summary_text(spec_id@, engine@, obj_model(variables@), options@),
{
    let lowered = to_ascii_lower(engine);
    let is_r = str_eq(lowered.as_str(), "r");
    let ghost ve = obj_model(variables@);
    let ghost om = options@;
    if str_eq(spec_id, "descriptives") {
        let vars = get_joined(variables, "variables", ", ");
        let mut out: String;
        if is_r {
            out = String::from_str("# Descriptive Statistics\n# Variables: ");
            out.append(vars.as_str());
            out.append("\n\ndescribe(data[, c(");
            out.append(vars.as_str());
            out.append(")])");
        } else {
            out = String::from_str("# Descriptive Statistics\n# Variables: ");
            out.append(vars.as_str());
            out.append("\n\ndf[[");
            out.append(vars.as_str());
            out.append("]].describe()");
        }
        proof {
            assert(out@ =~= summary_text(spec_id@, engine@, ve, om));
        }
        out
    } else if str_eq(spec_id, "ttest-one-sample") {
        let vars = get_joined(variables, "testVariables", ", ");
        let tv = get_option_or(options, "testValue", "0");
        let mut out: String;
        if is_r {
            out = String::from_str("# One-Sample T-Test\n# Variable: ");
            out.append(vars.as_str());
            out.append("\n# Test value: ");
            out.append(tv.as_str());
            out.append("\n\nt.test(");
            out.append(vars.as_str());
            out.append(", mu = ");
            out.append(tv.as_str());
            out.append(")");
        } else {
            out = String::from_str("# One-Sample T-Test\n# Variable: ");
            out.append(vars.as_str());
            out.append("\n# Test value: ");
            out.append(tv.as_str());
            out.append("\n\nstats.ttest_1samp(");
            out.append(vars.as_str());
            out.append(", ");
            out.append(tv.as_str());
            out.append(")");
        }
        proof {
            assert(out@ =~= summary_text(spec_id@, engine@, ve, om));
        }
        out
    } else if str_eq(spec_id, "ttest-independent") {
        let vars = get_joined(variables, "testVariables", ", ");
        let group = get_joined(variables, "groupingVariable", "");
        let g1 = get_option_or(options, "group1Value", "1");
        let g2 = get_option_or(options, "group2Value", "2");
        let mut out: String;
        if is_r {
            out = String::from_str("# Independent-Samples T-Test\n# Variable: ");
            out.append(vars.as_str());
            out.append("\n# Grouping: ");
            out.append(group.as_str());
            out.append(" (groups: ");
            out.append(g1.as_str());
            out.append(", ");
            out.append(g2.as_str());
            out.append(")\n\nt.test(");
            out.append(vars.as_str());
            out.append(" ~ ");
            out.append(group.as_str());
            out.append(")");
        } else {
            out = String::from_str("# Independent-Samples T-Test\n# Variable: ");
            out.append(vars.as_str());
            out.append("\n# Grouping: ");
            out.append(group.as_str());
            out.append(" (groups: ");
            out.append(g1.as_str());
            out.append(", ");
            out.append(g2.as_str());
            out.append(")\n\nstats.ttest_ind(group1, group2)");
        }
        proof {
            assert(out@ =~= summary_text(spec_id@, engine@, ve, om));
        }
        out
    } else if str_eq(spec_id, "ttest-paired") {
        let v1 = get_joined(variables, "variable1", "");
        let v2 = get_joined(variables, "variable2", "");
        let mut out: String;
        if is_r {
            out = String::from_str("# Paired-Samples T-Test\n# Variables: ");
            out.append(v1.as_str());
            out.append(" vs ");
            out.append(v2.as_str());
            out.append("\n\nt.test(");
            out.append(v1.as_str());
            out.append(", ");
            out.append(v2.as_str());
            out.append(", paired = TRUE)");
        } else {
            out = String::from_str("# Paired-Samples T-Test\n# Variables: ");
            out.append(v1.as_str());
            out.append(" vs ");
            out.append(v2.as_str());
            out.append("\n\nstats.ttest_rel(");
            out.append(v1.as_str());
            out.append(", ");
            out.append(v2.as_str());
            out.append(")");
        }
        proof {
            assert(out@ =~= summary_text(spec_id@, engine@, ve, om));
        }
        out
    } else if str_eq(spec_id, "anova") || str_eq(spec_id, "anova-oneway") {
        let dep = get_joined(variables, "dependentVariable", "");
        let factor = get_joined(variables, "factor", "");
        let mut out: String;
        if is_r {
            out = String::from_str("# One-Way ANOVA\n# Dependent: ");
            out.append(dep.as_str());
            out.append("\n# Factor: ");
            out.append(factor.as_str());
            out.append("\n\naov(");
            out.append(dep.as_str());
            out.append(" ~ ");
            out.append(factor.as_str());
            out.append(", data = df)");
        } else {
            out = String::from_str("# One-Way ANOVA\n# Dependent: ");
            out.append(dep.as_str());
            out.append("\n# Factor: ");
            out.append(factor.as_str());
            out.append("\n\nstats.f_oneway(*groups)");
        }
        proof {
            assert(out@ =~= summary_text(spec_id@, engine@, ve, om));
        }
        out
    } else if str_eq(spec_id, "correlation") {
        let vars = get_joined(variables, "variables", ", ");
        let mut out: String;
        if is_r {
            out = String::from_str("# Correlation Analysis\n# Variables: ");
            out.append(vars.as_str());
            out.append("\n\ncor(data[, c(");
            out.append(vars.as_str());
            out.append(")])");
        } else {
            out = String::from_str("# Correlation Analysis\n# Variables: ");
            out.append(vars.as_str());
            out.append("\n\ndf[[");
            out.append(vars.as_str());
            out.append("]].corr()");
        }
        proof {
            assert(out@ =~= summary_text(spec_id@, engine@, ve, om));
        }
        out
    } else if str_eq(spec_id, "efa") {
        let vars = get_joined(variables, "variables", ", ");
        let nf = get_option_or(options, "nFactors", "3");
        let mut out: String;
        if is_r {
            out = String::from_str("# Exploratory Factor Analysis\n# Variables: ");
            out.append(vars.as_str());
            out.append("\n# Factors: ");
            out.append(nf.as_str());
            out.append("\n\nfa(data, nfactors = ");
            out.append(nf.as_str());
            out.append(")");
        } else {
            out = String::from_str("# Exploratory Factor Analysis\n# Variables: ");
            out.append(vars.as_str());
            out.append("\n# Factors: ");
            out.append(nf.as_str());
            out.append("\n\nFactorAnalyzer(n_factors=");
            out.append(nf.as_str());
            out.append(").fit(data)");
        }
        proof {
            assert(out@ =~= summary_text(spec_id@, engine@, ve, om));
        }
        out
    } else if str_eq(spec_id, "regression") || str_eq(spec_id, "regression-linear") {
        let dep = get_joined(variables, "dependentVariable", "");
        let preds = get_joined(variables, "predictors", " + ");
        let mut out: String;
        if is_r {
            out = String::from_str("# Linear Regression\n# Dependent: ");
            out.append(dep.as_str());
            out.append("\n# Predictors: ");
            out.append(preds.as_str());
            out.append("\n\nlm(");
            out.append(dep.as_str());
            out.append(" ~ ");
            out.append(preds.as_str());
            out.append(", data = df)");
        } else {
            out = String::from_str("# Linear Regression\n# Dependent: ");
            out.append(dep.as_str());
            out.append("\n# Predictors: ");
            out.append(preds.as_str());
            out.append("\n\nsm.OLS(y, X).fit()");
        }
        proof {
            assert(out@ =~= summary_text(spec_id@, engine@, ve, om));
        }
        out
    } else {
        let mut out = String::from_str("# Analysis: ");
        out.append(spec_id);
        out.append("\n# Engine: ");
        out.append(engine);
        proof {
            assert(out@ =~= summary_text(spec_id@, engine@, ve, om));
        }
        out
    }
}

} // verus!
