//! Data transposition: a row-oriented record set becomes a column-oriented
//! map, one equally long column per key, missing cells filled with null.

use vstd::prelude::*;

use crate::json::clone_value;
use crate::json::entries_keys;
use crate::json::model_get;
use crate::json::obj_lookup;
use crate::json::obj_model;
use crate::json::JsonModel;
use crate::json::JsonValue;
use crate::text::str_eq;

verus! {

/// The keys a row contributes: its object keys, or none for a non-object.
pub open spec fn row_keys(m: JsonModel) -> Set<Seq<char>> {
    match m {
        JsonModel::Obj(entries) => entries_keys(entries),
        _ => Set::empty(),
    }
}

/// The union of the key sets of all rows.
pub open spec fn rows_key_union(rows: Seq<JsonModel>) -> Set<Seq<char>> {
    Set::new(
        |k: Seq<char>|
            exists|i: int| 0 <= i < rows.len() && row_keys(#[trigger] rows[i]).contains(k),
    )
}

/// The cell a row yields for a column: its value under the key when the row
/// is an object with the key, and null otherwise.
pub open spec fn row_cell(m: JsonModel, k: Seq<char>) -> JsonModel {
    match model_get(m, k) {
        Some(v) => v,
        None => JsonModel::Null,
    }
}

/// Whether a name is already among the collected column names.
#[verifier::loop_isolation(false)]
fn contains_name(names: &Vec<String>, k: &str) -> (r: bool)
    ensures
        r == exists|j: int| 0 <= j < names@.len() && (#[trigger] names@[j])@ == k@,
{
    let mut j: usize = 0;
    while j < names.len()
        invariant
            j <= names.len(),
            forall|t: int| 0 <= t < j ==> (#[trigger] names@[t])@ != k@,
        decreases names.len() - j,
    {
        if str_eq(names[j].as_str(), k) {
            return true;
        }
        j = j + 1;
    }
    false
}

/// The cell of one row for one column name.
fn cell_value(row: &JsonValue, k: &str) -> (r: JsonValue)
    ensures
        r@ == row_cell(row@, k@),
{
    match row {
        JsonValue::Obj(entries) => {
            proof {
                assert(row@ == JsonModel::Obj(obj_model(entries@)));
            }
            match obj_lookup(entries, k) {
                Some(v) => clone_value(v),
                None => JsonValue::Null,
            }
        },
        _ => JsonValue::Null,
    }
}

/// Transposes rows into columns.
///
/// Every output column is exactly as long as the row count; the set of
/// column names equals the union of the rows' key sets, each name once; a
/// row lacking a column's key (or not an object at all) yields null in that
/// column at the row's position.  Zero rows give zero columns.
#[verifier::loop_isolation(false)]
pub fn rows_to_columnar(rows: &Vec<JsonValue>) -> (r: Vec<(String, Vec<JsonValue>)>)
    ensures
        forall|j: int| 0 <= j < r@.len() ==> (#[trigger] r@[j]).1@.len() == rows@.len(),
        forall|j1: int, j2: int| 0 <= j1 < j2 < r@.len() ==> r@[j1].0@ != r@[j2].0@,
        forall|j: int|
            0 <= j < r@.len() ==> rows_key_union(crate::json::arr_model(rows@)).contains(
                (#[trigger] r@[j]).0@,
            ),
        forall|k: Seq<char>|
            rows_key_union(crate::json::arr_model(rows@)).contains(k) ==> exists|j: int|
                0 <= j < r@.len() && (#[trigger] r@[j]).0@ == k,
        forall|j: int, i: int|
            0 <= j < r@.len() && 0 <= i < rows@.len() ==> (#[trigger] r@[j].1@[i])@ == row_cell(
                rows@[i]@,
                r@[j].0@,
            ),
{
    let ghost mrows = crate::json::arr_model(rows@);
    proof {
        assert(mrows.len() == rows@.len());
        assert(forall|i: int| 0 <= i < rows@.len() ==> mrows[i] == (#[trigger] rows@[i])@);
    }
    // First pass: collect the union of row keys, in first-appearance order.
    let mut names: Vec<String> = Vec::new();
    let mut i: usize = 0;
    while i < rows.len()
        invariant
            i <= rows.len(),
            forall|j1: int, j2: int|
                0 <= j1 < j2 < names@.len() ==> (#[trigger] names@[j1])@ != (
                #[trigger] names@[j2])@,
            forall|j: int|
                0 <= j < names@.len() ==> rows_key_union(mrows).contains((#[trigger] names@[j])@),
            forall|i2: int, k: Seq<char>|
                0 <= i2 < i && #[trigger] row_keys(mrows[i2]).contains(k) ==> exists|j: int|
                    0 <= j < names@.len() && (#[trigger] names@[j])@ == k,
        decreases rows.len() - i,
    {
        match &rows[i] {
            JsonValue::Obj(entries) => {
                proof {
                    assert(rows@[i as int]@ == JsonModel::Obj(obj_model(entries@)));
                }
                let mut t: usize = 0;
                while t < entries.len()
                    invariant
                        t <= entries.len(),
                        forall|j1: int, j2: int|
                            0 <= j1 < j2 < names@.len() ==> (#[trigger] names@[j1])@ != (
                            #[trigger] names@[j2])@,
                        forall|j: int|
                            0 <= j < names@.len() ==> rows_key_union(mrows).contains(
                                (#[trigger] names@[j])@,
                            ),
                        forall|i2: int, k: Seq<char>|
                            0 <= i2 < i && #[trigger] row_keys(mrows[i2]).contains(k) ==> exists|
                                j: int,
                            |
                                0 <= j < names@.len() && (#[trigger] names@[j])@ == k,
                        forall|t2: int|
                            0 <= t2 < t ==> exists|j: int|
                                0 <= j < names@.len() && (#[trigger] names@[j])@ == (
                                #[trigger] entries@[t2]).0@,
                    decreases entries.len() - t,
                {
                    if !contains_name(&names, entries[t].0.as_str()) {
                        proof {
                            assert(obj_model(entries@)[t as int].0 == entries@[t as int].0@);
                            assert(entries_keys(obj_model(entries@)).contains(
                                entries@[t as int].0@,
                            ));
                            assert(row_keys(mrows[i as int]).contains(entries@[t as int].0@));
                        }
                        let ghost names0 = names@;
                        names.push(entries[t].0.clone());
                        proof {
                            assert(forall|j2: int|
                                0 <= j2 < names0.len() ==> names@[j2] == #[trigger] names0[j2]);
                            assert(names@.len() == names0.len() + 1);
                            assert((names@[names0.len() as int])@ == entries@[t as int].0@);
                        }
                    }
                    t = t + 1;
                }
                proof {
                    assert forall|k: Seq<char>|
                        row_keys(mrows[i as int]).contains(k) implies exists|j: int|
                        0 <= j < names@.len() && (#[trigger] names@[j])@ == k by {
                        let e = obj_model(entries@);
                        assert(entries_keys(e).contains(k));
                        let t2 = choose|t2: int| 0 <= t2 < e.len() && #[trigger] e[t2].0 == k;
                        assert(entries@[t2].0@ == k);
                    };
                }
            },
            _ => {
                proof {
                    assert(row_keys(mrows[i as int]) =~= Set::<Seq<char>>::empty());
                }
            },
        }
        i = i + 1;
    }
    // Second pass: one column per name, one cell per row.
    let mut out: Vec<(String, Vec<JsonValue>)> = Vec::new();
    let mut j: usize = 0;
    while j < names.len()
        invariant
            j <= names.len(),
            out@.len() == j,
            forall|j2: int| 0 <= j2 < j ==> (#[trigger] out@[j2]).0@ == names@[j2]@,
            forall|j2: int| 0 <= j2 < j ==> (#[trigger] out@[j2]).1@.len() == rows@.len(),
            forall|j2: int, i2: int|
                0 <= j2 < j && 0 <= i2 < rows@.len() ==> (#[trigger] out@[j2].1@[i2])@ == row_cell(
                    rows@[i2]@,
                    out@[j2].0@,
                ),
        decreases names.len() - j,
    {
        let mut col: Vec<JsonValue> = Vec::new();
        let mut i2: usize = 0;
        while i2 < rows.len()
            invariant
                i2 <= rows.len(),
                col@.len() == i2,
                forall|i3: int|
                    0 <= i3 < i2 ==> (#[trigger] col@[i3])@ == row_cell(
                        rows@[i3]@,
                        names@[j as int]@,
                    ),
            decreases rows.len() - i2,
        {
            col.push(cell_value(&rows[i2], names[j].as_str()));
            i2 = i2 + 1;
        }
        out.push((names[j].clone(), col));
        j = j + 1;
    }
    proof {
        assert forall|k: Seq<char>| rows_key_union(mrows).contains(k) implies exists|j2: int|
            0 <= j2 < out@.len() && (#[trigger] out@[j2]).0@ == k by {
            let i3 = choose|i3: int|
                0 <= i3 < mrows.len() && row_keys(#[trigger] mrows[i3]).contains(k);
            let jn = choose|jn: int|
                0 <= jn < names@.len() && (#[trigger] names@[jn])@ == k;
            assert((out@[jn]).0@ == k);
        };
    }
    out
}

} // verus!
