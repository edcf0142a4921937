//! The JSON value type carried through requests and responses.
//!
//! A number is stored as its decimal token text, so the type stays exact
//! for every value that appears on the wire.  Objects keep their entries in
//! insertion order with distinct keys.

use vstd::prelude::*;

verus! {

broadcast use vstd::std_specs::vec::axiom_vec_index_decreases;

/// A JSON document value.
#[derive(Debug)]
pub enum JsonValue {
    Null,
    Bool(bool),
    /// The decimal token of a number, kept verbatim (e.g. `"42"`, `"-1.5e3"`).
    Num(String),
    Str(String),
    Arr(Vec<JsonValue>),
    Obj(Vec<(String, JsonValue)>),
}

/// The mathematical model of a [`JsonValue`].
#[verifier::ext_equal]
pub enum JsonModel {
    Null,
    Bool(bool),
    Num(Seq<char>),
    Str(Seq<char>),
    Arr(Seq<JsonModel>),
    Obj(Seq<(Seq<char>, JsonModel)>),
}

/// The models of a sequence of array items.
pub open spec fn arr_model(items: Seq<JsonValue>) -> Seq<JsonModel>
    decreases items, 0int,
{
    Seq::new(
        items.len(),
        |i: int|
            if 0 <= i < items.len() {
                items[i]@
            } else {
                JsonModel::Null
            },
    )
}

/// The models of a sequence of object entries.
pub open spec fn obj_model(entries: Seq<(String, JsonValue)>) -> Seq<(Seq<char>, JsonModel)>
    decreases entries, 0int,
{
    Seq::new(
        entries.len(),
        |i: int|
            if 0 <= i < entries.len() {
                (entries[i].0@, entries[i].1@)
            } else {
                (Seq::empty(), JsonModel::Null)
            },
    )
}

impl View for JsonValue {
    type V = JsonModel;

    open spec fn view(&self) -> JsonModel
        decreases self, 1int,
    {
        match self {
            JsonValue::Null => JsonModel::Null,
            JsonValue::Bool(b) => JsonModel::Bool(*b),
            JsonValue::Num(s) => JsonModel::Num(s@),
            JsonValue::Str(s) => JsonModel::Str(s@),
            JsonValue::Arr(items) => JsonModel::Arr(arr_model(items@)),
            JsonValue::Obj(entries) => JsonModel::Obj(obj_model(entries@)),
        }
    }
}

/// Looks a key up among object entries; the last entry with the key wins.
pub open spec fn entries_get(entries: Seq<(Seq<char>, JsonModel)>, key: Seq<char>) -> Option<
    JsonModel,
>
    decreases entries.len(),
{
    if entries.len() == 0 {
        None
    } else if entries.last().0 == key {
        Some(entries.last().1)
    } else {
        entries_get(entries.drop_last(), key)
    }
}

/// The keys of a sequence of object entries, as a set.
pub open spec fn entries_keys(entries: Seq<(Seq<char>, JsonModel)>) -> Set<Seq<char>> {
    Set::new(|k: Seq<char>| exists|i: int| 0 <= i < entries.len() && #[trigger] entries[i].0 == k)
}

/// Whether the keys of a sequence of object entries are pairwise distinct.
pub open spec fn entries_distinct(entries: Seq<(Seq<char>, JsonModel)>) -> bool {
    forall|i: int, j: int|
        0 <= i < j < entries.len() ==> #[trigger] entries[i].0 != #[trigger] entries[j].0
}

/// What a model value offers when read as an object: its entries, or none.
pub open spec fn as_obj_entries(m: JsonModel) -> Option<Seq<(Seq<char>, JsonModel)>> {
    match m {
        JsonModel::Obj(entries) => Some(entries),
        _ => None,
    }
}

/// Looks a key up in a model value, `None` unless it is an object with the key.
pub open spec fn model_get(m: JsonModel, key: Seq<char>) -> Option<JsonModel> {
    match m {
        JsonModel::Obj(entries) => entries_get(entries, key),
        _ => None,
    }
}

/// Whether a character may appear in a number token.
pub open spec fn is_number_char(c: char) -> bool {
    (48 <= c as u32 && c as u32 <= 57) || c == '-' || c == '+' || c == '.' || c == 'e' || c == 'E'
}

/// Whether a character sequence is a plausible JSON number token.
pub open spec fn is_number_token(s: Seq<char>) -> bool {
    &&& s.len() > 0
    &&& ((48 <= s[0] as u32 && s[0] as u32 <= 57) || s[0] == '-')
    &&& forall|i: int| 0 <= i < s.len() ==> is_number_char(#[trigger] s[i])
}

/// Well-formedness of a model value: number tokens look like numbers and
/// object keys are distinct, at every depth.
pub open spec fn wf_model(m: JsonModel) -> bool
    decreases m,
{
    match m {
        JsonModel::Null => true,
        JsonModel::Bool(_) => true,
        JsonModel::Num(s) => is_number_token(s),
        JsonModel::Str(_) => true,
        JsonModel::Arr(items) => forall|i: int|
            0 <= i < items.len() ==> wf_model(#[trigger] items[i]),
        JsonModel::Obj(entries) => entries_distinct(entries) && forall|i: int|
            0 <= i < entries.len() ==> wf_model(#[trigger] entries[i].1),
    }
}

/// Deep copy of a JSON value.
#[verifier::loop_isolation(false)]
pub fn clone_value(v: &JsonValue) -> (r: JsonValue)
    ensures
        r@ == v@,
    decreases v,
{
    match v {
        JsonValue::Null => JsonValue::Null,
        JsonValue::Bool(b) => JsonValue::Bool(*b),
        JsonValue::Num(s) => JsonValue::Num(s.clone()),
        JsonValue::Str(s) => JsonValue::Str(s.clone()),
        JsonValue::Arr(items) => {
            let mut out: Vec<JsonValue> = Vec::new();
            let mut i: usize = 0;
            while i < items.len()
                invariant
                    i <= items.len(),
                    out.len() == i,
                    forall|j: int| 0 <= j < i ==> out[j]@ == items[j]@,
                decreases items.len() - i,
            {
                out.push(clone_value(&items[i]));
                i = i + 1;
            }
            let r = JsonValue::Arr(out);
            proof {
                assert(v@ is Arr);
                assert(v@->Arr_0.len() == items.len());
                assert(forall|j: int| 0 <= j < items.len() ==> v@->Arr_0[j] == items@[j]@);
                assert(r@ is Arr);
                assert(r@->Arr_0.len() == out.len());
                assert(forall|j: int| 0 <= j < out.len() ==> r@->Arr_0[j] == out@[j]@);
                assert(r@->Arr_0 =~= v@->Arr_0);
                assert(r@ == JsonModel::Arr(r@->Arr_0));
                assert(v@ == JsonModel::Arr(v@->Arr_0));
                assert(r@ == v@);
            }
            r
        },
        JsonValue::Obj(entries) => {
            let mut out: Vec<(String, JsonValue)> = Vec::new();
            let mut i: usize = 0;
            while i < entries.len()
                invariant
                    i <= entries.len(),
                    out.len() == i,
                    forall|j: int|
                        0 <= j < i ==> out[j].0@ == entries[j].0@ && out[j].1@ == entries[j].1@,
                decreases entries.len() - i,
            {
                let key = entries[i].0.clone();
                let val = clone_value(&entries[i].1);
                out.push((key, val));
                i = i + 1;
            }
            let r = JsonValue::Obj(out);
            proof {
                assert(v@ is Obj);
                assert(v@->Obj_0.len() == entries.len());
                assert(forall|j: int|
                    0 <= j < entries.len() ==> v@->Obj_0[j] == (entries@[j].0@, entries@[j].1@));
                assert(r@ is Obj);
                assert(r@->Obj_0.len() == out.len());
                assert(forall|j: int|
                    0 <= j < out.len() ==> r@->Obj_0[j] == (out@[j].0@, out@[j].1@));
                assert(r@->Obj_0 =~= v@->Obj_0);
                assert(r@ == JsonModel::Obj(r@->Obj_0));
                assert(v@ == JsonModel::Obj(v@->Obj_0));
                assert(r@ == v@);
            }
            r
        },
    }
}

/// The model of a list of strings.
pub open spec fn strs_model(v: Seq<String>) -> Seq<Seq<char>> {
    Seq::new(
        v.len(),
        |i: int|
            if 0 <= i < v.len() {
                v[i]@
            } else {
                Seq::empty()
            },
    )
}

/// The string items of a value sequence, in order, non-strings skipped.
pub open spec fn str_items(items: Seq<JsonModel>) -> Seq<Seq<char>>
    decreases items.len(),
{
    if items.len() == 0 {
        Seq::empty()
    } else {
        str_items(items.drop_last()) + (if items.last() is Str {
            seq![items.last()->Str_0]
        } else {
            Seq::empty()
        })
    }
}

/// Collects the string items of an array, skipping everything else.
#[verifier::loop_isolation(false)]
pub fn collect_strings(items: &Vec<JsonValue>) -> (r: Vec<String>)
    ensures
        strs_model(r@) == str_items(arr_model(items@)),
{
    let ghost m = arr_model(items@);
    let mut out: Vec<String> = Vec::new();
    let mut i: usize = 0;
    while i < items.len()
        invariant
            i <= items.len(),
            strs_model(out@) == str_items(m.subrange(0, i as int)),
        decreases items.len() - i,
    {
        let ghost pre = m.subrange(0, i as int);
        let ghost cur = m.subrange(0, i + 1 as int);
        proof {
            assert(cur.drop_last() =~= pre);
            assert(cur.last() == m[i as int]);
            assert(m[i as int] == items@[i as int]@);
        }
        match &items[i] {
            JsonValue::Str(t) => {
                out.push(t.clone());
                proof {
                    assert(strs_model(out@) =~= str_items(cur));
                }
            },
            _ => {
                proof {
                    assert(strs_model(out@) =~= str_items(cur));
                }
            },
        }
        i = i + 1;
    }
    proof {
        assert(m.subrange(0, items.len() as int) =~= m);
    }
    out
}

/// Appending an entry makes its key win and leaves other keys as they were.
pub proof fn lemma_entries_get_push(
    e: Seq<(Seq<char>, JsonModel)>,
    p: (Seq<char>, JsonModel),
    k: Seq<char>,
)
    ensures
        entries_get(e.push(p), k) == (if k == p.0 {
            Some(p.1)
        } else {
            entries_get(e, k)
        }),
{
    assert(e.push(p).drop_last() =~= e);
    assert(e.push(p).last() == p);
}

/// Overwriting the entry at `t` with a pair under the same key changes the
/// lookup under that key and no other, as long as keys are distinct.
pub proof fn lemma_entries_get_update(
    e: Seq<(Seq<char>, JsonModel)>,
    t: int,
    p: (Seq<char>, JsonModel),
    k: Seq<char>,
)
    requires
        0 <= t < e.len(),
        p.0 == e[t].0,
        entries_distinct(e),
    ensures
        entries_get(e.update(t, p), k) == (if k == p.0 {
            Some(p.1)
        } else {
            entries_get(e, k)
        }),
    decreases e.len(),
{
    let e2 = e.update(t, p);
    if t == e.len() - 1 {
        assert(e2.last() == p);
        assert(e2.drop_last() =~= e.drop_last());
    } else {
        assert(e2.last() == e.last());
        assert(e2.drop_last() =~= e.drop_last().update(t, p));
        assert(entries_distinct(e.drop_last())) by {
            assert(forall|a: int|
                0 <= a < e.len() - 1 ==> e.drop_last()[a] == #[trigger] e[a]);
        }
        assert(e.drop_last()[t] == e[t]);
        lemma_entries_get_update(e.drop_last(), t, p, k);
        assert(e[t].0 != e.last().0);
    }
}

/// With distinct keys, the lookup under an entry's key yields its value.
pub proof fn lemma_entries_get_at(e: Seq<(Seq<char>, JsonModel)>, t: int)
    requires
        0 <= t < e.len(),
        entries_distinct(e),
    ensures
        entries_get(e, e[t].0) == Some(e[t].1),
    decreases e.len(),
{
    if t == e.len() - 1 {
    } else {
        assert(e.last().0 != e[t].0);
        assert(entries_distinct(e.drop_last())) by {
            assert(forall|a: int| 0 <= a < e.len() - 1 ==> e.drop_last()[a] == #[trigger] e[a]);
        }
        assert(e.drop_last()[t] == e[t]);
        lemma_entries_get_at(e.drop_last(), t);
    }
}

/// Well-formedness passes from an object to the value under any key.
pub proof fn lemma_wf_entries_get(e: Seq<(Seq<char>, JsonModel)>, k: Seq<char>)
    requires
        forall|i: int| 0 <= i < e.len() ==> wf_model((#[trigger] e[i]).1),
        entries_get(e, k) is Some,
    ensures
        wf_model(entries_get(e, k)->0),
    decreases e.len(),
{
    if e.len() > 0 {
        if e.last().0 == k {
            assert(e[e.len() - 1].1 == e.last().1);
        } else {
            assert(forall|i: int|
                0 <= i < e.len() - 1 ==> wf_model((#[trigger] e.drop_last()[i]).1)) by {
                assert(forall|i: int|
                    0 <= i < e.len() - 1 ==> e.drop_last()[i] == #[trigger] e[i]);
            }
            lemma_wf_entries_get(e.drop_last(), k);
        }
    }
}

/// A lookup succeeds exactly for the keys that occur among the entries.
pub proof fn lemma_entries_get_some_iff(e: Seq<(Seq<char>, JsonModel)>, k: Seq<char>)
    ensures
        entries_get(e, k) is Some <==> entries_keys(e).contains(k),
    decreases e.len(),
{
    if e.len() == 0 {
        assert(!entries_keys(e).contains(k));
    } else {
        lemma_entries_get_some_iff(e.drop_last(), k);
        if e.last().0 == k {
            assert(entries_keys(e).contains(k)) by {
                assert(e[e.len() - 1].0 == k);
            }
        } else {
            if entries_keys(e.drop_last()).contains(k) {
                let i = choose|i: int|
                    0 <= i < e.drop_last().len() && #[trigger] e.drop_last()[i].0 == k;
                assert(e[i].0 == k);
            }
            if entries_keys(e).contains(k) {
                let i = choose|i: int| 0 <= i < e.len() && #[trigger] e[i].0 == k;
                assert(i < e.len() - 1);
                assert(e.drop_last()[i].0 == k);
            }
        }
    }
}

/// Finds the value stored under `k`, the last entry with the key winning,
/// as [`entries_get`] says.
#[verifier::loop_isolation(false)]
pub fn obj_lookup<'a>(entries: &'a Vec<(String, JsonValue)>, k: &str) -> (r: Option<
    &'a JsonValue,
>)
    ensures
        match r {
            Some(v) => entries_get(obj_model(entries@), k@) == Some(v@),
            None => entries_get(obj_model(entries@), k@) is None,
        },
{
    let ghost m = obj_model(entries@);
    let mut t: usize = entries.len();
    proof {
        assert(m.subrange(0, t as int) =~= m);
    }
    while t > 0
        invariant
            t <= entries.len(),
            entries_get(m, k@) == entries_get(m.subrange(0, t as int), k@),
        decreases t,
    {
        proof {
            assert(m.subrange(0, t as int).last() == m[t - 1]);
            assert(m[t - 1] == (entries@[t - 1].0@, entries@[t - 1].1@));
            assert(m.subrange(0, t as int).drop_last() =~= m.subrange(0, t - 1));
        }
        if crate::text::str_eq(entries[t - 1].0.as_str(), k) {
            return Some(&entries[t - 1].1);
        }
        t = t - 1;
    }
    proof {
        assert(m.subrange(0, 0) =~= Seq::<(Seq<char>, JsonModel)>::empty());
    }
    None
}

impl Clone for JsonValue {
    fn clone(&self) -> (r: Self)
        ensures
            r@ == self@,
    {
        clone_value(self)
    }
}

impl JsonValue {
    /// Whether this value is an object.
    pub fn is_object(&self) -> (r: bool)
        ensures
            r == (self@ is Obj),
    {
        match self {
            JsonValue::Obj(_) => true,
            _ => false,
        }
    }

    /// Whether this value is a string.
    pub fn is_string(&self) -> (r: bool)
        ensures
            r == (self@ is Str),
    {
        match self {
            JsonValue::Str(_) => true,
            _ => false,
        }
    }
}

} // verus!
