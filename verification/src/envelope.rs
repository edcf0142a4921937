//! Request envelopes: the engine-specific wire messages.
//!
//! The "r" engine takes a JSON-RPC-shaped message whose script sources the
//! analysis script by name; the "python" engine takes a flat message whose
//! namespace carries the absolute script path.

use vstd::prelude::*;
use vstd::string::StringExecFns;

use crate::assemble::ns_insert;
use crate::assemble::raw_distinct;
use crate::json::arr_model;
use crate::json::entries_get;
use crate::json::lemma_entries_get_push;
use crate::json::obj_model;
use crate::json::JsonModel;
use crate::json::JsonValue;
use crate::text::push_char;

verus! {

/// The two-line script the "r" wrapper evaluates: source the analysis
/// script by name, then yield the bound result.
pub open spec fn r_snippet_text(script_name: Seq<char>) -> Seq<char> {
    "source_bundled('"@ + script_name + ".R')\nresult"@
}

/// Builds the two-line "r" script snippet.
pub fn r_script_snippet(script_name: &str) -> (r: String)
    ensures
        r@ == r_snippet_text(script_name@),
{
    let mut out = String::from_str("source_bundled('");
    out.append(script_name);
    out.append(".R')\nresult");
    proof {
        assert(out@ =~= r_snippet_text(script_name@));
    }
    out
}

/// The model of the "r" request envelope.
pub open spec fn r_envelope_model(
    script_name: Seq<char>,
    req_id: Seq<char>,
    data: Seq<(Seq<char>, JsonModel)>,
) -> JsonModel {
    JsonModel::Obj(
        seq![
            ("jsonrpc"@, JsonModel::Str("2.0"@)),
            ("id"@, JsonModel::Str(req_id)),
            ("method"@, JsonModel::Str("execute"@)),
            (
                "params"@,
                JsonModel::Obj(
                    seq![
                        ("script"@, JsonModel::Str(r_snippet_text(script_name))),
                        ("data"@, JsonModel::Obj(data)),
                        ("packages"@, JsonModel::Arr(Seq::empty())),
                    ],
                ),
            ),
        ],
    )
}

/// Builds the "r" request envelope around the merged namespace.
pub fn build_r_envelope(script_name: &str, req_id: &str, data: Vec<(String, JsonValue)>) -> (r:
    JsonValue)
    ensures
        r@ == r_envelope_model(script_name@, req_id@, obj_model(data@)),
{
    let ghost dm = obj_model(data@);
    let snippet = r_script_snippet(script_name);
    let mut params: Vec<(String, JsonValue)> = Vec::new();
    params.push((String::from_str("script"), JsonValue::Str(snippet)));
    params.push((String::from_str("data"), JsonValue::Obj(data)));
    params.push((String::from_str("packages"), JsonValue::Arr(Vec::new())));
    proof {
        assert(arr_model(Seq::<JsonValue>::empty()) =~= Seq::<JsonModel>::empty());
        assert(obj_model(params@) =~= seq![
            ("script"@, JsonModel::Str(r_snippet_text(script_name@))),
            ("data"@, JsonModel::Obj(dm)),
            ("packages"@, JsonModel::Arr(Seq::empty())),
        ]);
    }
    let mut top: Vec<(String, JsonValue)> = Vec::new();
    top.push((String::from_str("jsonrpc"), JsonValue::Str(String::from_str("2.0"))));
    top.push((String::from_str("id"), JsonValue::Str(String::from_str(req_id))));
    top.push((String::from_str("method"), JsonValue::Str(String::from_str("execute"))));
    top.push((String::from_str("params"), JsonValue::Obj(params)));
    let r = JsonValue::Obj(top);
    proof {
        assert(r@ == JsonModel::Obj(obj_model(top@)));
        assert(obj_model(top@) =~= r_envelope_model(script_name@, req_id@, dm)->Obj_0);
    }
    r
}

/// The namespace the "python" wrapper receives: the merged namespace with
/// the script path entry written last, so the `__script_path__` field
/// always holds the script path, whatever the namespace held under that
/// key.
pub fn py_data_entries(script_path: &str, ns: Vec<(String, JsonValue)>) -> (r: Vec<
    (String, JsonValue),
>)
    requires
        raw_distinct(ns@),
    ensures
        raw_distinct(r@),
        forall|k: Seq<char>|
            #[trigger] entries_get(obj_model(r@), k) == (if k == "__script_path__"@ {
                Some(JsonModel::Str(script_path@))
            } else {
                entries_get(obj_model(ns@), k)
            }),
{
    let ghost nsm = obj_model(ns@);
    let mut data = ns;
    let _ = ns_insert(
        &mut data,
        String::from_str("__script_path__"),
        JsonValue::Str(String::from_str(script_path)),
    );
    data
}

/// The model of the "python" request envelope.
pub open spec fn py_envelope_model(req_id: Seq<char>, data: Seq<(Seq<char>, JsonModel)>) -> JsonModel {
    JsonModel::Obj(
        seq![
            ("id"@, JsonModel::Str(req_id)),
            ("script"@, JsonModel::Str(""@)),
            ("data"@, JsonModel::Obj(data)),
            ("packages"@, JsonModel::Arr(Seq::empty())),
        ],
    )
}

/// Builds the "python" request envelope around the wrapper namespace.
pub fn build_python_envelope(req_id: &str, data: Vec<(String, JsonValue)>) -> (r: JsonValue)
    ensures
        r@ == py_envelope_model(req_id@, obj_model(data@)),
{
    let ghost dm = obj_model(data@);
    let mut top: Vec<(String, JsonValue)> = Vec::new();
    top.push((String::from_str("id"), JsonValue::Str(String::from_str(req_id))));
    top.push((String::from_str("script"), JsonValue::Str(String::new())));
    top.push((String::from_str("data"), JsonValue::Obj(data)));
    top.push((String::from_str("packages"), JsonValue::Arr(Vec::new())));
    let r = JsonValue::Obj(top);
    proof {
        reveal_strlit("");
        assert(""@ =~= Seq::<char>::empty());
        assert(arr_model(Seq::<JsonValue>::empty()) =~= Seq::<JsonModel>::empty());
        assert(r@ == JsonModel::Obj(obj_model(top@)));
        assert(obj_model(top@) =~= py_envelope_model(req_id@, dm)->Obj_0);
    }
    r
}

/// The "r" envelope is well-formed whenever its namespace is: keys are
/// distinct at every level and every value is well-formed.
pub proof fn lemma_r_envelope_wf(
    script_name: Seq<char>,
    req_id: Seq<char>,
    data: Seq<(Seq<char>, JsonModel)>,
)
    requires
        crate::json::entries_distinct(data),
        forall|i: int| 0 <= i < data.len() ==> crate::json::wf_model((#[trigger] data[i]).1),
    ensures
        crate::json::wf_model(r_envelope_model(script_name, req_id, data)),
{
    reveal_strlit("jsonrpc");
    reveal_strlit("id");
    reveal_strlit("method");
    reveal_strlit("params");
    reveal_strlit("script");
    reveal_strlit("data");
    reveal_strlit("packages");
    let m = r_envelope_model(script_name, req_id, data);
    let params = m->Obj_0[3].1;
    assert(crate::json::wf_model(JsonModel::Str(r_snippet_text(script_name))));
    assert(crate::json::wf_model(JsonModel::Obj(data)));
    assert(crate::json::wf_model(JsonModel::Arr(Seq::empty())));
    assert(""@ + "script"@ != "data"@ && "script"@ != "packages"@ && "data"@ != "packages"@) by {
        assert("script"@.len() == 6 && "data"@.len() == 4 && "packages"@.len() == 8);
    }
    assert forall|a: int, b: int|
        0 <= a < b < params->Obj_0.len() implies params->Obj_0[a].0 != params->Obj_0[b].0 by {
        if a == 0 && b == 1 {
            assert(params->Obj_0[0].0 == "script"@ && params->Obj_0[1].0 == "data"@);
        } else if a == 0 && b == 2 {
            assert(params->Obj_0[0].0 == "script"@ && params->Obj_0[2].0 == "packages"@);
        } else {
            assert(params->Obj_0[1].0 == "data"@ && params->Obj_0[2].0 == "packages"@);
        }
    }
    assert(crate::json::wf_model(params));
    assert("jsonrpc"@ != "id"@ && "jsonrpc"@ != "method"@ && "jsonrpc"@ != "params"@ && "id"@
        != "method"@ && "id"@ != "params"@) by {
        assert("jsonrpc"@.len() == 7 && "id"@.len() == 2 && "method"@.len() == 6 && "params"@.len()
            == 6);
    }
    assert("method"@ != "params"@) by {
        assert("method"@[0] == 'm' && "params"@[0] == 'p');
    }
    assert forall|a: int, b: int|
        0 <= a < b < m->Obj_0.len() implies m->Obj_0[a].0 != m->Obj_0[b].0 by {
        assert(m->Obj_0[0].0 == "jsonrpc"@ && m->Obj_0[1].0 == "id"@ && m->Obj_0[2].0 == "method"@
            && m->Obj_0[3].0 == "params"@);
    }
    assert(crate::json::entries_distinct(m->Obj_0));
    assert forall|i: int| 0 <= i < m->Obj_0.len() implies crate::json::wf_model(
        m->Obj_0[i].1,
    ) by {
        if i == 0 {
            assert(m->Obj_0[0].1 == JsonModel::Str("2.0"@));
        } else if i == 1 {
            assert(m->Obj_0[1].1 == JsonModel::Str(req_id));
        } else if i == 2 {
            assert(m->Obj_0[2].1 == JsonModel::Str("execute"@));
        } else {
            assert(m->Obj_0[3].1 == params);
        }
    }
    assert(crate::json::wf_model(m));
}

/// The "python" envelope is well-formed whenever its namespace is.
pub proof fn lemma_py_envelope_wf(req_id: Seq<char>, data: Seq<(Seq<char>, JsonModel)>)
    requires
        crate::json::entries_distinct(data),
        forall|i: int| 0 <= i < data.len() ==> crate::json::wf_model((#[trigger] data[i]).1),
    ensures
        crate::json::wf_model(py_envelope_model(req_id, data)),
{
    reveal_strlit("id");
    reveal_strlit("script");
    reveal_strlit("data");
    reveal_strlit("packages");
    let m = py_envelope_model(req_id, data);
    assert(crate::json::wf_model(JsonModel::Obj(data)));
    assert(crate::json::wf_model(JsonModel::Arr(Seq::empty())));
    assert("id"@ != "script"@ && "id"@ != "data"@ && "id"@ != "packages"@ && "script"@ != "data"@
        && "script"@ != "packages"@ && "data"@ != "packages"@) by {
        assert("id"@.len() == 2 && "script"@.len() == 6 && "data"@.len() == 4 && "packages"@.len()
            == 8);
    }
    assert forall|a: int, b: int|
        0 <= a < b < m->Obj_0.len() implies m->Obj_0[a].0 != m->Obj_0[b].0 by {
        assert(m->Obj_0[0].0 == "id"@ && m->Obj_0[1].0 == "script"@ && m->Obj_0[2].0 == "data"@
            && m->Obj_0[3].0 == "packages"@);
    }
    assert(crate::json::entries_distinct(m->Obj_0));
    assert forall|i: int| 0 <= i < m->Obj_0.len() implies crate::json::wf_model(
        m->Obj_0[i].1,
    ) by {
        if i == 0 {
            assert(m->Obj_0[0].1 == JsonModel::Str(req_id));
        } else if i == 1 {
            assert(m->Obj_0[1].1 == JsonModel::Str(""@));
        } else if i == 2 {
            assert(m->Obj_0[2].1 == JsonModel::Obj(data));
        } else {
            assert(m->Obj_0[3].1 == JsonModel::Arr(Seq::empty()));
        }
    }
    assert(crate::json::wf_model(m));
}

/// One newline-terminated line frames exactly one "r" request: the
/// serialized envelope of a well-formed namespace holds no line break.
pub proof fn lemma_r_request_line_is_one_line(
    script_name: Seq<char>,
    req_id: Seq<char>,
    data: Seq<(Seq<char>, JsonModel)>,
)
    requires
        crate::json::entries_distinct(data),
        forall|i: int| 0 <= i < data.len() ==> crate::json::wf_model((#[trigger] data[i]).1),
    ensures
        crate::ser::single_line(crate::ser::json_text(r_envelope_model(script_name, req_id, data))),
{
    lemma_r_envelope_wf(script_name, req_id, data);
    crate::ser::lemma_json_text_single_line(r_envelope_model(script_name, req_id, data));
}

/// One newline-terminated line frames exactly one "python" request.
pub proof fn lemma_py_request_line_is_one_line(req_id: Seq<char>, data: Seq<(Seq<char>, JsonModel)>)
    requires
        crate::json::entries_distinct(data),
        forall|i: int| 0 <= i < data.len() ==> crate::json::wf_model((#[trigger] data[i]).1),
    ensures
        crate::ser::single_line(crate::ser::json_text(py_envelope_model(req_id, data))),
{
    lemma_py_envelope_wf(req_id, data);
    crate::ser::lemma_json_text_single_line(py_envelope_model(req_id, data));
}

} // verus!
