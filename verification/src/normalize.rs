//! Response normalization: the two engine-specific response envelopes
//! become one canonical result, with transport failures (unparseable
//! output) kept apart from script failures (well-formed error responses).

use vstd::prelude::*;
use vstd::string::StringExecFns;

use crate::json::arr_model;
use crate::json::clone_value;
use crate::json::collect_strings;
use crate::json::model_get;
use crate::json::obj_lookup;
use crate::json::obj_model;
use crate::json::str_items;
use crate::json::strs_model;
use crate::json::wf_model;
use crate::json::JsonModel;
use crate::json::JsonValue;
use crate::engine::trim_ascii;
use crate::engine::trimmed;
use crate::parse::parse_json;
use crate::parse::parsed_shape;

verus! {

/// The canonical, engine-independent analysis result.
#[derive(Debug)]
pub struct AnalysisResult {
    pub success: bool,
    /// The value the script returned.
    pub result: Option<JsonValue>,
    /// Captured print/log text.
    pub output: String,
    /// Base64-encoded images the script produced.
    pub plots: Vec<String>,
    /// The failure message when `success` is false.
    pub error: Option<String>,
    /// The verbatim source of the executed script, for display.
    pub script: Option<String>,
    /// A synthesized sketch of the statistical call, for display.
    pub script_summary: Option<String>,
}

/// A field of a field: the inner lookup when the outer one finds an object.
pub open spec fn model_get2(m: JsonModel, k1: Seq<char>, k2: Seq<char>) -> Option<JsonModel> {
    match model_get(m, k1) {
        Some(x) => model_get(x, k2),
        None => None,
    }
}

/// The error message of an "r" failure envelope: the nested `message`
/// string, or a fixed fallback.
pub open spec fn r_error_text(m: JsonModel) -> Seq<char> {
    match model_get2(m, "error"@, "message"@) {
        Some(v) => match v {
            JsonModel::Str(s) => s,
            _ => "Unknown R error"@,
        },
        _ => "Unknown R error"@,
    }
}

/// The `result.value` of an "r" success envelope.
pub open spec fn r_value(m: JsonModel) -> Option<JsonModel> {
    model_get2(m, "result"@, "value"@)
}

/// The `result.output` text of an "r" success envelope, or empty.
pub open spec fn r_output_text(m: JsonModel) -> Seq<char> {
    match model_get2(m, "result"@, "output"@) {
        Some(v) => match v {
            JsonModel::Str(s) => s,
            _ => Seq::empty(),
        },
        _ => Seq::empty(),
    }
}

/// The `result.plots` strings of an "r" success envelope, or none.
pub open spec fn r_plots_list(m: JsonModel) -> Seq<Seq<char>> {
    match model_get2(m, "result"@, "plots"@) {
        Some(v) => match v {
            JsonModel::Arr(items) => str_items(items),
            _ => Seq::empty(),
        },
        _ => Seq::empty(),
    }
}

/// The `success` flag of a "python" envelope; anything but `true` fails.
pub open spec fn py_success(m: JsonModel) -> bool {
    match model_get(m, "success"@) {
        Some(v) => match v {
            JsonModel::Bool(b) => b,
            _ => false,
        },
        _ => false,
    }
}

/// The `error` string of a "python" failure envelope, or a fixed fallback.
pub open spec fn py_error_text(m: JsonModel) -> Seq<char> {
    match model_get(m, "error"@) {
        Some(v) => match v {
            JsonModel::Str(s) => s,
            _ => "Unknown Python error"@,
        },
        _ => "Unknown Python error"@,
    }
}

/// The `output` text of a "python" envelope, or empty.
pub open spec fn py_output_text(m: JsonModel) -> Seq<char> {
    match model_get(m, "output"@) {
        Some(v) => match v {
            JsonModel::Str(s) => s,
            _ => Seq::empty(),
        },
        _ => Seq::empty(),
    }
}

/// The `plots` strings of a "python" envelope, or none.
pub open spec fn py_plots_list(m: JsonModel) -> Seq<Seq<char>> {
    match model_get(m, "plots"@) {
        Some(v) => match v {
            JsonModel::Arr(items) => str_items(items),
            _ => Seq::empty(),
        },
        _ => Seq::empty(),
    }
}

/// How a canonical result relates to a parsed "r" response envelope.
pub open spec fn r_normalizes(
    m: JsonModel,
    res: AnalysisResult,
    script: Seq<char>,
    summary: Seq<char>,
) -> bool {
    &&& (match res.script {
        Some(s) => s@ == script,
        None => false,
    })
    &&& (match res.script_summary {
        Some(s) => s@ == summary,
        None => false,
    })
    &&& if model_get(m, "error"@) is Some {
        &&& res.success == false
        &&& res.result is None
        &&& res.output@ == Seq::<char>::empty()
        &&& res.plots@.len() == 0
        &&& (match res.error {
            Some(e) => e@ == r_error_text(m),
            None => false,
        })
    } else {
        &&& res.success == true
        &&& (match (res.result, r_value(m)) {
            (Some(v), Some(w)) => v@ == w,
            (None, None) => true,
            _ => false,
        })
        &&& res.output@ == r_output_text(m)
        &&& strs_model(res.plots@) == r_plots_list(m)
        &&& res.error is None
    }
}

/// How a canonical result relates to a parsed "python" response envelope.
pub open spec fn py_normalizes(
    m: JsonModel,
    res: AnalysisResult,
    script: Seq<char>,
    summary: Seq<char>,
) -> bool {
    &&& (match res.script {
        Some(s) => s@ == script,
        None => false,
    })
    &&& (match res.script_summary {
        Some(s) => s@ == summary,
        None => false,
    })
    &&& if !py_success(m) {
        &&& res.success == false
        &&& res.result is None
        &&& res.output@ == py_output_text(m)
        &&& res.plots@.len() == 0
        &&& (match res.error {
            Some(e) => e@ == py_error_text(m),
            None => false,
        })
    } else {
        &&& res.success == true
        &&& (match (res.result, model_get(m, "result"@)) {
            (Some(v), Some(w)) => v@ == w,
            (None, None) => true,
            _ => false,
        })
        &&& res.output@ == py_output_text(m)
        &&& strs_model(res.plots@) == py_plots_list(m)
        &&& res.error is None
    }
}

/// The string under a key of an object value, cloned, or empty.
fn get_str_or_empty(entries: &Vec<(String, JsonValue)>, k: &str) -> (r: String)
    ensures
        r@ == (match crate::json::entries_get(obj_model(entries@), k@) {
            Some(v) => match v {
                JsonModel::Str(s) => s,
                _ => Seq::<char>::empty(),
            },
            _ => Seq::<char>::empty(),
        }),
{
    match obj_lookup(entries, k) {
        Some(v) => match v {
            JsonValue::Str(s) => s.clone(),
            _ => String::new(),
        },
        None => String::new(),
    }
}

/// The string items under a key of an object value, or none.
fn get_plots(entries: &Vec<(String, JsonValue)>, k: &str) -> (r: Vec<String>)
    ensures
        strs_model(r@) == (match crate::json::entries_get(obj_model(entries@), k@) {
            Some(v) => match v {
                JsonModel::Arr(items) => str_items(items),
                _ => Seq::<Seq<char>>::empty(),
            },
            _ => Seq::<Seq<char>>::empty(),
        }),
{
    let r: Vec<String> = match obj_lookup(entries, k) {
        Some(v) => match v {
            JsonValue::Arr(items) => {
                proof {
                    assert(v@ == JsonModel::Arr(arr_model(items@)));
                }
                collect_strings(items)
            },
            _ => Vec::new(),
        },
        None => Vec::new(),
    };
    proof {
        assert(strs_model(Seq::<String>::empty()) =~= Seq::<Seq<char>>::empty());
    }
    r
}

/// Normalizes a parsed "r" response envelope.
pub fn normalize_r_response(
    response: &JsonValue,
    script_content: String,
    script_summary: String,
) -> (res: AnalysisResult)
    ensures
        r_normalizes(response@, res, script_content@, script_summary@),
{
    match response {
        JsonValue::Obj(entries) => {
            proof {
                assert(response@ == JsonModel::Obj(obj_model(entries@)));
            }
            match obj_lookup(entries, "error") {
                Some(e) => {
                    let msg: String = match e {
                        JsonValue::Obj(eentries) => {
                            proof {
                                assert(e@ == JsonModel::Obj(obj_model(eentries@)));
                            }
                            match obj_lookup(eentries, "message") {
                                Some(mv) => match mv {
                                    JsonValue::Str(s) => s.clone(),
                                    _ => String::from_str("Unknown R error"),
                                },
                                None => String::from_str("Unknown R error"),
                            }
                        },
                        _ => String::from_str("Unknown R error"),
                    };
                    AnalysisResult {
                        success: false,
                        result: None,
                        output: String::new(),
                        plots: Vec::new(),
                        error: Some(msg),
                        script: Some(script_content),
                        script_summary: Some(script_summary),
                    }
                },
                None => {
                    let (value, output, plots) = match obj_lookup(entries, "result") {
                        Some(robj) => match robj {
                            JsonValue::Obj(rentries) => {
                                proof {
                                    assert(robj@ == JsonModel::Obj(obj_model(rentries@)));
                                }
                                let value = match obj_lookup(rentries, "value") {
                                    Some(v) => Some(clone_value(v)),
                                    None => None,
                                };
                                let output = get_str_or_empty(rentries, "output");
                                let plots = get_plots(rentries, "plots");
                                (value, output, plots)
                            },
                            _ => (None, String::new(), Vec::new()),
                        },
                        None => (None, String::new(), Vec::new()),
                    };
                    proof {
                        assert(strs_model(Seq::<String>::empty()) =~= Seq::<Seq<char>>::empty());
                    }
                    AnalysisResult {
                        success: true,
                        result: value,
                        output,
                        plots,
                        error: None,
                        script: Some(script_content),
                        script_summary: Some(script_summary),
                    }
                },
            }
        },
        _ => {
            proof {
                assert(strs_model(Seq::<String>::empty()) =~= Seq::<Seq<char>>::empty());
            }
            AnalysisResult {
                success: true,
                result: None,
                output: String::new(),
                plots: Vec::new(),
                error: None,
                script: Some(script_content),
                script_summary: Some(script_summary),
            }
        },
    }
}

/// Normalizes a parsed "python" response envelope.
pub fn normalize_python_response(
    response: &JsonValue,
    script_content: String,
    script_summary: String,
) -> (res: AnalysisResult)
    ensures
        py_normalizes(response@, res, script_content@, script_summary@),
{
    match response {
        JsonValue::Obj(entries) => {
            proof {
                assert(response@ == JsonModel::Obj(obj_model(entries@)));
            }
            let success = match obj_lookup(entries, "success") {
                Some(v) => match v {
                    JsonValue::Bool(b) => *b,
                    _ => false,
                },
                None => false,
            };
            if !success {
                let error: String = match obj_lookup(entries, "error") {
                    Some(v) => match v {
                        JsonValue::Str(s) => s.clone(),
                        _ => String::from_str("Unknown Python error"),
                    },
                    None => String::from_str("Unknown Python error"),
                };
                let output = get_str_or_empty(entries, "output");
                AnalysisResult {
                    success: false,
                    result: None,
                    output,
                    plots: Vec::new(),
                    error: Some(error),
                    script: Some(script_content),
                    script_summary: Some(script_summary),
                }
            } else {
                let value = match obj_lookup(entries, "result") {
                    Some(v) => Some(clone_value(v)),
                    None => None,
                };
                let output = get_str_or_empty(entries, "output");
                let plots = get_plots(entries, "plots");
                AnalysisResult {
                    success: true,
                    result: value,
                    output,
                    plots,
                    error: None,
                    script: Some(script_content),
                    script_summary: Some(script_summary),
                }
            }
        },
        _ => {
            // A non-object parses to no `success` flag, so it fails.
            AnalysisResult {
                success: false,
                result: None,
                output: String::new(),
                plots: Vec::new(),
                error: Some(String::from_str("Unknown Python error")),
                script: Some(script_content),
                script_summary: Some(script_summary),
            }
        },
    }
}

/// The transport-failure message for the "r" engine: it names the failure
/// and carries the raw output and diagnostic streams.
pub open spec fn r_transport_text(out: Seq<char>, err: Seq<char>) -> Seq<char> {
    "Failed to parse R wrapper response. Raw: "@ + out + ". Stderr: "@ + err
}

/// The transport-failure message for the "python" engine.
pub open spec fn py_transport_text(out: Seq<char>, err: Seq<char>) -> Seq<char> {
    "Failed to parse Python wrapper response. Raw: "@ + out + ". Stderr: "@ + err
}

/// Normalizes the raw output of the "r" engine: the trimmed output must
/// parse as JSON, else a transport error carries the raw streams; a parsed
/// envelope becomes the canonical result.  The envelope in the success
/// clause is tied to the trimmed output's own shape, so an output that
/// opens no JSON shape can only be classified as a transport error.
pub fn normalize_r_output(
    stdout: &str,
    stderr: &str,
    script_content: String,
    script_summary: String,
) -> (r: Result<AnalysisResult, String>)
    ensures
        r matches Err(m) ==> m@ == r_transport_text(stdout@, stderr@),
        r matches Ok(res) ==> exists|m: JsonModel|
            {
                &&& #[trigger] wf_model(m)
                &&& parsed_shape(trimmed(stdout@), 0, trimmed(stdout@).len() as int, m)
                &&& r_normalizes(m, res, script_content@, script_summary@)
            },
{
    let cleaned = trim_ascii(stdout);
    match parse_json(cleaned.as_str()) {
        Some(v) => {
            let res = normalize_r_response(&v, script_content, script_summary);
            proof {
                assert(wf_model(v@) && parsed_shape(
                    trimmed(stdout@),
                    0,
                    trimmed(stdout@).len() as int,
                    v@,
                ) && r_normalizes(v@, res, script_content@, script_summary@));
            }
            Ok(res)
        },
        None => {
            let mut msg = String::from_str("Failed to parse R wrapper response. Raw: ");
            msg.append(stdout);
            msg.append(". Stderr: ");
            msg.append(stderr);
            proof {
                assert(msg@ =~= r_transport_text(stdout@, stderr@));
            }
            Err(msg)
        },
    }
}

/// Normalizes the raw output of the "python" engine, as the "r" one.
pub fn normalize_python_output(
    stdout: &str,
    stderr: &str,
    script_content: String,
    script_summary: String,
) -> (r: Result<AnalysisResult, String>)
    ensures
        r matches Err(m) ==> m@ == py_transport_text(stdout@, stderr@),
        r matches Ok(res) ==> exists|m: JsonModel|
            {
                &&& #[trigger] wf_model(m)
                &&& parsed_shape(trimmed(stdout@), 0, trimmed(stdout@).len() as int, m)
                &&& py_normalizes(m, res, script_content@, script_summary@)
            },
{
    let cleaned = trim_ascii(stdout);
    match parse_json(cleaned.as_str()) {
        Some(v) => {
            let res = normalize_python_response(&v, script_content, script_summary);
            proof {
                assert(wf_model(v@) && parsed_shape(
                    trimmed(stdout@),
                    0,
                    trimmed(stdout@).len() as int,
                    v@,
                ) && py_normalizes(v@, res, script_content@, script_summary@));
            }
            Ok(res)
        },
        None => {
            let mut msg = String::from_str("Failed to parse Python wrapper response. Raw: ");
            msg.append(stdout);
            msg.append(". Stderr: ");
            msg.append(stderr);
            proof {
                assert(msg@ =~= py_transport_text(stdout@, stderr@));
            }
            Err(msg)
        },
    }
}

/// The JSON form of a canonical result, as the caller receives it.
pub open spec fn result_json_model(res: AnalysisResult) -> JsonModel {
    JsonModel::Obj(
        seq![
            ("success"@, JsonModel::Bool(res.success)),
            (
                "result"@,
                match res.result {
                    Some(v) => v@,
                    None => JsonModel::Null,
                },
            ),
            ("output"@, JsonModel::Str(res.output@)),
            ("plots"@, JsonModel::Arr(plots_model(res.plots@))),
            (
                "error"@,
                match res.error {
                    Some(e) => JsonModel::Str(e@),
                    None => JsonModel::Null,
                },
            ),
            (
                "script"@,
                match res.script {
                    Some(t) => JsonModel::Str(t@),
                    None => JsonModel::Null,
                },
            ),
            (
                "scriptSummary"@,
                match res.script_summary {
                    Some(t) => JsonModel::Str(t@),
                    None => JsonModel::Null,
                },
            ),
        ],
    )
}

/// Plot strings as JSON string values.
pub open spec fn plots_model(plots: Seq<String>) -> Seq<JsonModel> {
    Seq::new(
        plots.len(),
        |i: int|
            if 0 <= i < plots.len() {
                JsonModel::Str(plots[i]@)
            } else {
                JsonModel::Null
            },
    )
}

/// Renders a canonical result as a JSON value.
#[verifier::loop_isolation(false)]
pub fn analysis_result_to_json(res: AnalysisResult) -> (r: JsonValue)
    ensures
        r@ == result_json_model(res),
{
    let ghost res0 = res;
    let AnalysisResult { success, result, output, plots, error, script, script_summary } = res;
    let mut plot_items: Vec<JsonValue> = Vec::new();
    let mut i: usize = 0;
    while i < plots.len()
        invariant
            i <= plots.len(),
            plot_items@.len() == i,
            forall|j: int|
                0 <= j < i ==> (#[trigger] plot_items@[j])@ == JsonModel::Str(plots@[j]@),
        decreases plots.len() - i,
    {
        plot_items.push(JsonValue::Str(plots[i].clone()));
        i = i + 1;
    }
    proof {
        assert(arr_model(plot_items@) =~= plots_model(plots@));
    }
    let mut top: Vec<(String, JsonValue)> = Vec::new();
    top.push((<String as vstd::string::StringExecFns>::from_str("success"), JsonValue::Bool(
        success,
    )));
    top.push((<String as vstd::string::StringExecFns>::from_str("result"), match result {
        Some(v) => v,
        None => JsonValue::Null,
    }));
    top.push((<String as vstd::string::StringExecFns>::from_str("output"), JsonValue::Str(output)));
    top.push((<String as vstd::string::StringExecFns>::from_str("plots"), JsonValue::Arr(
        plot_items,
    )));
    top.push((<String as vstd::string::StringExecFns>::from_str("error"), match error {
        Some(e) => JsonValue::Str(e),
        None => JsonValue::Null,
    }));
    top.push((<String as vstd::string::StringExecFns>::from_str("script"), match script {
        Some(t) => JsonValue::Str(t),
        None => JsonValue::Null,
    }));
    top.push((
        <String as vstd::string::StringExecFns>::from_str("scriptSummary"),
        match script_summary {
            Some(t) => JsonValue::Str(t),
            None => JsonValue::Null,
        },
    ));
    let r = JsonValue::Obj(top);
    proof {
        assert(r@ == JsonModel::Obj(obj_model(top@)));
        assert(obj_model(top@) =~= result_json_model(res0)->Obj_0);
        assert(r@ == result_json_model(res0));
    }
    r
}

} // verus!
