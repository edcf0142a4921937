//! Dispatch glue: turns a caller's request into the one line written to an
//! engine, and reads a request out of its JSON form.

use vstd::prelude::*;

use crate::assemble::collisions_from;
use crate::assemble::expected_warnings;
use crate::assemble::layered_get;
use crate::assemble::merge_namespace;
use crate::assemble::opts_entries;
use crate::assemble::cols_entries;
use crate::assemble::raw_distinct;
use crate::assemble::tagged;
use crate::assemble::warn_model;
use crate::assemble::CollisionWarning;
use crate::assemble::NamespaceSource;
use crate::envelope::build_python_envelope;
use crate::envelope::build_r_envelope;
use crate::envelope::py_data_entries;
use crate::envelope::py_envelope_model;
use crate::envelope::r_envelope_model;
use crate::json::arr_model;
use crate::json::entries_distinct;
use crate::json::entries_get;
use crate::json::lemma_entries_get_at;
use crate::json::lemma_entries_get_some_iff;
use crate::json::obj_model;
use crate::json::wf_model;
use crate::json::JsonModel;
use crate::json::JsonValue;
use crate::resolve::derived_vars;
use crate::resolve::extract_spec_variables;
use crate::ser::json_text;
use crate::ser::to_json_string;
use crate::transpose::row_cell;
use crate::transpose::rows_key_union;
use crate::transpose::rows_to_columnar;

verus! {

/// The column a key yields over the rows: one cell per row.
pub open spec fn column_of(rows: Seq<JsonModel>, k: Seq<char>) -> Seq<JsonModel> {
    Seq::new(
        rows.len(),
        |i: int|
            if 0 <= i < rows.len() {
                row_cell(rows[i], k)
            } else {
                JsonModel::Null
            },
    )
}

/// What the assembled request namespace holds under a key: the derived
/// variables win, then options, then variables, then the transposed
/// column, which exists exactly for the keys the rows carry.
pub open spec fn request_data_get(
    id: Seq<char>,
    vars_e: Seq<(Seq<char>, JsonModel)>,
    opts_m: JsonModel,
    rows: Seq<JsonModel>,
    k: Seq<char>,
) -> Option<JsonModel> {
    if entries_get(derived_vars(id), k) is Some {
        entries_get(derived_vars(id), k)
    } else if entries_get(opts_entries(opts_m), k) is Some {
        entries_get(opts_entries(opts_m), k)
    } else if entries_get(vars_e, k) is Some {
        entries_get(vars_e, k)
    } else if rows_key_union(rows).contains(k) {
        Some(JsonModel::Arr(column_of(rows, k)))
    } else {
        None
    }
}

/// The warnings assembling a request emits, over its own inputs.
pub open spec fn request_warnings(
    id: Seq<char>,
    vars_e: Seq<(Seq<char>, JsonModel)>,
    opts_m: JsonModel,
    rows: Seq<JsonModel>,
) -> Seq<(Seq<char>, NamespaceSource)> {
    let k1 = rows_key_union(rows);
    let k2 = k1.union(crate::json::entries_keys(vars_e));
    let k3 = k2.union(crate::json::entries_keys(opts_entries(opts_m)));
    tagged(collisions_from(vars_e, k1), NamespaceSource::Variables) + tagged(
        collisions_from(opts_entries(opts_m), k2),
        NamespaceSource::Options,
    ) + tagged(collisions_from(derived_vars(id), k3), NamespaceSource::SpecDerived)
}

/// Assembles the flat namespace of one request: the rows transposed to
/// columns, overwritten in rising precedence by caller variables, caller
/// options and spec-derived variables, each overwrite warned about once.
pub fn assemble_request_data(
    spec_id: &str,
    variables: &Vec<(String, JsonValue)>,
    options: &JsonValue,
    data: &Vec<JsonValue>,
) -> (r: (Vec<(String, JsonValue)>, Vec<CollisionWarning>))
    requires
        raw_distinct(variables@),
        entries_distinct(opts_entries(options@)),
    ensures
        raw_distinct(r.0@),
        forall|k: Seq<char>|
            #[trigger] entries_get(obj_model(r.0@), k) == request_data_get(
                spec_id@,
                obj_model(variables@),
                options@,
                arr_model(data@),
                k,
            ),
        warn_model(r.1@) == request_warnings(
            spec_id@,
            obj_model(variables@),
            options@,
            arr_model(data@),
        ),
{
    let ghost rows = arr_model(data@);
    let ghost vars_e = obj_model(variables@);
    let cols = rows_to_columnar(data);
    let ghost ce = cols_entries(cols@);
    let derived = extract_spec_variables(spec_id);
    proof {
        assert(obj_model(derived@).len() == derived@.len());
        assert(raw_distinct(derived@)) by {
            assert(derived_vars(spec_id@).len() <= 1);
        }
        // A column lookup agrees with the rows' key union.
        assert(entries_distinct(ce)) by {
            assert(forall|a: int|
                0 <= a < cols@.len() ==> (#[trigger] ce[a]).0 == cols@[a].0@);
        }
        assert forall|k: Seq<char>|
            #[trigger] entries_get(ce, k) == (if rows_key_union(rows).contains(k) {
                Some(JsonModel::Arr(column_of(rows, k)))
            } else {
                None
            }) by {
            if rows_key_union(rows).contains(k) {
                let j = choose|j: int| 0 <= j < cols@.len() && (#[trigger] cols@[j]).0@ == k;
                assert(ce[j] == (k, JsonModel::Arr(arr_model(cols@[j].1@))));
                lemma_entries_get_at(ce, j);
                assert(arr_model(cols@[j].1@) =~= column_of(rows, k)) by {
                    assert(forall|i: int|
                        0 <= i < data@.len() ==> (#[trigger] cols@[j].1@[i])@ == row_cell(
                            rows[i],
                            k,
                        ));
                }
            } else {
                lemma_entries_get_some_iff(ce, k);
                if crate::json::entries_keys(ce).contains(k) {
                    let a = choose|a: int| 0 <= a < ce.len() && #[trigger] ce[a].0 == k;
                    assert(cols@[a].0@ == k);
                    assert(rows_key_union(rows).contains(k));
                }
            }
        }
    }
    let r = merge_namespace(&cols, variables, options, &derived);
    proof {
        assert forall|k: Seq<char>|
            #[trigger] entries_get(obj_model(r.0@), k) == request_data_get(
                spec_id@,
                vars_e,
                options@,
                rows,
                k,
            ) by {
            assert(entries_get(obj_model(r.0@), k) == layered_get(
                ce,
                vars_e,
                opts_entries(options@),
                obj_model(derived@),
                k,
            ));
        }
        assert(crate::json::entries_keys(ce) =~= rows_key_union(rows)) by {
            assert forall|k: Seq<char>|
                crate::json::entries_keys(ce).contains(k) implies rows_key_union(rows).contains(
                k,
            ) by {
                let a = choose|a: int| 0 <= a < ce.len() && #[trigger] ce[a].0 == k;
                assert(cols@[a].0@ == k);
            }
            assert forall|k: Seq<char>|
                rows_key_union(rows).contains(k) implies crate::json::entries_keys(ce).contains(
                k,
            ) by {
                let j = choose|j: int| 0 <= j < cols@.len() && (#[trigger] cols@[j]).0@ == k;
                assert(ce[j].0 == k);
            }
        }
        assert(warn_model(r.1@) == request_warnings(spec_id@, vars_e, options@, rows)) by {
            assert(expected_warnings(ce, vars_e, opts_entries(options@), obj_model(derived@))
                == request_warnings(spec_id@, vars_e, options@, rows));
        }
    }
    r
}

/// Builds the one line written to the "r" engine's input stream.
pub fn build_r_request_line(script_name: &str, req_id: &str, ns: Vec<(String, JsonValue)>) -> (r:
    String)
    ensures
        r@ == json_text(r_envelope_model(script_name@, req_id@, obj_model(ns@))),
{
    let env = build_r_envelope(script_name, req_id, ns);
    to_json_string(&env)
}

/// Builds the one line written to the "python" engine's input stream: the
/// envelope around the namespace extended with the script path entry,
/// which always holds the script path.
pub fn build_python_request_line(
    script_path: &str,
    req_id: &str,
    ns: Vec<(String, JsonValue)>,
) -> (r: String)
    requires
        raw_distinct(ns@),
    ensures
        exists|dm: Seq<(Seq<char>, JsonModel)>|
            {
                &&& #[trigger] r@ == json_text(py_envelope_model(req_id@, dm))
                &&& forall|k: Seq<char>|
                    #[trigger] entries_get(dm, k) == (if k == "__script_path__"@ {
                        Some(JsonModel::Str(script_path@))
                    } else {
                        entries_get(obj_model(ns@), k)
                    })
            },
{
    let data = py_data_entries(script_path, ns);
    let ghost dm = obj_model(data@);
    let env = build_python_envelope(req_id, data);
    let r = to_json_string(&env);
    proof {
        assert(r@ == json_text(py_envelope_model(req_id@, dm)));
    }
    r
}

/// Whether a JSON value has the shape of an analysis request: the
/// identifier and engine are strings, the variables form an object, the
/// options are present, the data rows form an array, and the dataset name,
/// when present, is a string.
pub open spec fn request_shape_ok(m: JsonModel) -> bool {
    &&& (match crate::json::model_get(m, "specId"@) {
        Some(v) => v is Str,
        None => false,
    })
    &&& (match crate::json::model_get(m, "variables"@) {
        Some(v) => v is Obj,
        None => false,
    })
    &&& crate::json::model_get(m, "options"@) is Some
    &&& (match crate::json::model_get(m, "engine"@) {
        Some(v) => v is Str,
        None => false,
    })
    &&& (match crate::json::model_get(m, "data"@) {
        Some(v) => v is Arr,
        None => false,
    })
    &&& (match crate::json::model_get(m, "datasetName"@) {
        Some(v) => v is Str,
        None => true,
    })
}

/// Deep copy of object entries.
#[verifier::loop_isolation(false)]
fn clone_entries(entries: &Vec<(String, JsonValue)>) -> (r: Vec<(String, JsonValue)>)
    ensures
        obj_model(r@) == obj_model(entries@),
        r@.len() == entries@.len(),
{
    let mut out: Vec<(String, JsonValue)> = Vec::new();
    let mut i: usize = 0;
    while i < entries.len()
        invariant
            i <= entries.len(),
            out@.len() == i,
            forall|j: int|
                0 <= j < i ==> (#[trigger] out@[j]).0@ == entries@[j].0@ && out@[j].1@
                    == entries@[j].1@,
        decreases entries.len() - i,
    {
        let key = entries[i].0.clone();
        let val = crate::json::clone_value(&entries[i].1);
        out.push((key, val));
        i = i + 1;
    }
    proof {
        assert(obj_model(out@) =~= obj_model(entries@));
    }
    out
}

/// Deep copy of array items.
#[verifier::loop_isolation(false)]
fn clone_items(items: &Vec<JsonValue>) -> (r: Vec<JsonValue>)
    ensures
        arr_model(r@) == arr_model(items@),
{
    let mut out: Vec<JsonValue> = Vec::new();
    let mut i: usize = 0;
    while i < items.len()
        invariant
            i <= items.len(),
            out@.len() == i,
            forall|j: int| 0 <= j < i ==> (#[trigger] out@[j])@ == items@[j]@,
        decreases items.len() - i,
    {
        out.push(crate::json::clone_value(&items[i]));
        i = i + 1;
    }
    proof {
        assert(arr_model(out@) =~= arr_model(items@));
    }
    out
}

/// Reads an analysis request out of its JSON form.  A request whose shape
/// is wrong gives an error naming the field at fault.
pub fn request_from_json(v: &JsonValue) -> (r: Result<crate::engine::AnalysisRequest, String>)
    requires
        wf_model(v@),
    ensures
        r is Ok <==> request_shape_ok(v@),
        r matches Ok(req) ==> {
            &&& crate::json::model_get(v@, "specId"@) == Some(JsonModel::Str(req.spec_id@))
            &&& crate::json::model_get(v@, "variables"@) == Some(
                JsonModel::Obj(obj_model(req.variables@)),
            )
            &&& crate::json::model_get(v@, "options"@) == Some(req.options@)
            &&& crate::json::model_get(v@, "engine"@) == Some(JsonModel::Str(req.engine@))
            &&& (match crate::json::model_get(v@, "data"@) {
                Some(d) => d == JsonModel::Arr(arr_model(req.data@)),
                None => false,
            })
            &&& (match crate::json::model_get(v@, "datasetName"@) {
                Some(d) => d == JsonModel::Str(req.dataset_name@),
                None => req.dataset_name@ == Seq::<char>::empty(),
            })
            &&& raw_distinct(req.variables@)
            &&& entries_distinct(opts_entries(req.options@))
        },
{
    let entries = match v {
        JsonValue::Obj(entries) => entries,
        _ => {
            return Err(
                <String as vstd::string::StringExecFns>::from_str("Invalid request: not a JSON object"),
            );
        },
    };
    proof {
        assert(v@ == JsonModel::Obj(obj_model(entries@)));
    }
    let spec_id = match crate::json::obj_lookup(entries, "specId") {
        Some(JsonValue::Str(s)) => s.clone(),
        _ => {
            return Err(
                <String as vstd::string::StringExecFns>::from_str(
                    "Invalid request: missing or invalid 'specId'",
                ),
            );
        },
    };
    let variables = match crate::json::obj_lookup(entries, "variables") {
        Some(JsonValue::Obj(ventries)) => {
            proof {
                assert(forall|i: int|
                    0 <= i < obj_model(entries@).len() ==> wf_model(
                        (#[trigger] obj_model(entries@)[i]).1,
                    ));
                crate::json::lemma_wf_entries_get(obj_model(entries@), "variables"@);
                assert(wf_model(JsonModel::Obj(obj_model(ventries@))));
                assert(entries_distinct(obj_model(ventries@)));
            }
            clone_entries(ventries)
        },
        _ => {
            return Err(
                <String as vstd::string::StringExecFns>::from_str(
                    "Invalid request: missing or invalid 'variables'",
                ),
            );
        },
    };
    let options = match crate::json::obj_lookup(entries, "options") {
        Some(o) => {
            proof {
                assert(forall|i: int|
                    0 <= i < obj_model(entries@).len() ==> wf_model(
                        (#[trigger] obj_model(entries@)[i]).1,
                    ));
                crate::json::lemma_wf_entries_get(obj_model(entries@), "options"@);
                assert(wf_model(o@));
                assert(entries_distinct(opts_entries(o@)));
            }
            crate::json::clone_value(o)
        },
        None => {
            return Err(
                <String as vstd::string::StringExecFns>::from_str("Invalid request: missing 'options'"),
            );
        },
    };
    let engine = match crate::json::obj_lookup(entries, "engine") {
        Some(JsonValue::Str(s)) => s.clone(),
        _ => {
            return Err(
                <String as vstd::string::StringExecFns>::from_str(
                    "Invalid request: missing or invalid 'engine'",
                ),
            );
        },
    };
    let data = match crate::json::obj_lookup(entries, "data") {
        Some(JsonValue::Arr(items)) => clone_items(items),
        _ => {
            return Err(
                <String as vstd::string::StringExecFns>::from_str(
                    "Invalid request: missing or invalid 'data'",
                ),
            );
        },
    };
    let dataset_name = match crate::json::obj_lookup(entries, "datasetName") {
        Some(JsonValue::Str(s)) => s.clone(),
        Some(_) => {
            return Err(
                <String as vstd::string::StringExecFns>::from_str(
                    "Invalid request: invalid 'datasetName'",
                ),
            );
        },
        None => String::new(),
    };
    proof {
        // The variables object and the options value inherit the input's
        // well-formedness, which makes their keys distinct.
        assert(entries_distinct(obj_model(variables@)));
        assert forall|a: int, b: int|
            0 <= a < b < variables@.len() implies variables@[a].0@ != variables@[b].0@ by {
            assert(obj_model(variables@)[a].0 == variables@[a].0@);
            assert(obj_model(variables@)[b].0 == variables@[b].0@);
        }
        assert(entries_distinct(opts_entries(options@)));
    }
    Ok(
        crate::engine::AnalysisRequest {
            spec_id,
            variables,
            options,
            engine,
            data,
            dataset_name,
        },
    )
}

/// Every value the assembled namespace can hold is well-formed, as long
/// as the caller's variables, options and rows are.
pub proof fn lemma_request_data_wf(
    id: Seq<char>,
    vars_e: Seq<(Seq<char>, JsonModel)>,
    opts_m: JsonModel,
    rows: Seq<JsonModel>,
    k: Seq<char>,
)
    requires
        forall|i: int| 0 <= i < vars_e.len() ==> wf_model((#[trigger] vars_e[i]).1),
        wf_model(opts_m),
        forall|i: int| 0 <= i < rows.len() ==> wf_model(#[trigger] rows[i]),
    ensures
        request_data_get(id, vars_e, opts_m, rows, k) matches Some(v) ==> wf_model(v),
{
    let d = derived_vars(id);
    assert(forall|i: int| 0 <= i < d.len() ==> (#[trigger] d[i]).1 is Str);
    if entries_get(d, k) is Some {
        crate::json::lemma_wf_entries_get(d, k);
    } else if entries_get(opts_entries(opts_m), k) is Some {
        crate::json::lemma_wf_entries_get(opts_entries(opts_m), k);
    } else if entries_get(vars_e, k) is Some {
        crate::json::lemma_wf_entries_get(vars_e, k);
    } else if rows_key_union(rows).contains(k) {
        assert forall|i: int|
            0 <= i < column_of(rows, k).len() implies wf_model(
            #[trigger] column_of(rows, k)[i],
        ) by {
            assert(column_of(rows, k)[i] == row_cell(rows[i], k));
            match rows[i] {
                JsonModel::Obj(entries) => {
                    if entries_get(entries, k) is Some {
                        crate::json::lemma_wf_entries_get(entries, k);
                    }
                },
                _ => {},
            }
        }
        assert(wf_model(JsonModel::Arr(column_of(rows, k))));
    }
}

/// Every value stored in the assembled namespace is well-formed, so the
/// serialized envelope around it is one line (see the envelope module):
/// the single write the bridge performs frames exactly one message.
pub proof fn lemma_namespace_values_wf(
    id: Seq<char>,
    vars_e: Seq<(Seq<char>, JsonModel)>,
    opts_m: JsonModel,
    rows: Seq<JsonModel>,
    ns: Seq<(Seq<char>, JsonModel)>,
)
    requires
        entries_distinct(ns),
        forall|k: Seq<char>|
            #[trigger] entries_get(ns, k) == request_data_get(id, vars_e, opts_m, rows, k),
        forall|i: int| 0 <= i < vars_e.len() ==> wf_model((#[trigger] vars_e[i]).1),
        wf_model(opts_m),
        forall|i: int| 0 <= i < rows.len() ==> wf_model(#[trigger] rows[i]),
    ensures
        forall|i: int| 0 <= i < ns.len() ==> wf_model((#[trigger] ns[i]).1),
{
    assert forall|i: int| 0 <= i < ns.len() implies wf_model((#[trigger] ns[i]).1) by {
        lemma_entries_get_at(ns, i);
        lemma_request_data_wf(id, vars_e, opts_m, rows, ns[i].0);
    }
}

} // verus!
