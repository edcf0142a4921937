//! Request assembly: merges transposed columns, caller variables, caller
//! options and spec-derived variables into one flat namespace.
//!
//! Precedence rises from columns to variables to options to derived
//! variables; a later source overwrites an earlier one on key collision,
//! and each overwrite yields one observable warning naming the key and the
//! source that caused it.

use vstd::prelude::*;
use vstd::string::StringExecFns;

use crate::json::arr_model;
use crate::json::clone_value;
use crate::json::entries_distinct;
use crate::json::entries_get;
use crate::json::entries_keys;
use crate::json::lemma_entries_get_push;
use crate::json::lemma_entries_get_some_iff;
use crate::json::lemma_entries_get_update;
use crate::json::obj_model;
use crate::json::JsonModel;
use crate::json::JsonValue;
use crate::text::str_eq;

verus! {

/// Which source a colliding key came from.
#[derive(Debug, Clone, Copy, PartialEq, Eq, Structural)]
pub enum NamespaceSource {
    Columns,
    Variables,
    Options,
    SpecDerived,
}

/// One observable diagnostic: a key that overwrote an earlier entry.
#[derive(Debug)]
pub struct CollisionWarning {
    pub key: String,
    pub source: NamespaceSource,
}

/// The model of a warning list.
pub open spec fn warn_model(w: Seq<CollisionWarning>) -> Seq<(Seq<char>, NamespaceSource)> {
    Seq::new(
        w.len(),
        |i: int|
            if 0 <= i < w.len() {
                (w[i].key@, w[i].source)
            } else {
                (Seq::empty(), NamespaceSource::Columns)
            },
    )
}

/// Columns as namespace entries: each column becomes an array value.
pub open spec fn cols_entries(cols: Seq<(String, Vec<JsonValue>)>) -> Seq<
    (Seq<char>, JsonModel),
> {
    Seq::new(
        cols.len(),
        |i: int|
            if 0 <= i < cols.len() {
                (cols[i].0@, JsonModel::Arr(arr_model(cols[i].1@)))
            } else {
                (Seq::empty(), JsonModel::Null)
            },
    )
}

/// The entries an options value contributes: its object entries, or none.
pub open spec fn opts_entries(m: JsonModel) -> Seq<(Seq<char>, JsonModel)> {
    match m {
        JsonModel::Obj(entries) => entries,
        _ => Seq::empty(),
    }
}

/// What the merged namespace holds under a key: the highest-precedence
/// source that has the key wins.
pub open spec fn layered_get(
    cols_e: Seq<(Seq<char>, JsonModel)>,
    vars_e: Seq<(Seq<char>, JsonModel)>,
    opts_e: Seq<(Seq<char>, JsonModel)>,
    der_e: Seq<(Seq<char>, JsonModel)>,
    k: Seq<char>,
) -> Option<JsonModel> {
    if entries_get(der_e, k) is Some {
        entries_get(der_e, k)
    } else if entries_get(opts_e, k) is Some {
        entries_get(opts_e, k)
    } else if entries_get(vars_e, k) is Some {
        entries_get(vars_e, k)
    } else {
        entries_get(cols_e, k)
    }
}

/// The keys of a source that collide with an existing key set, in source
/// order.
pub open spec fn collisions_from(
    src: Seq<(Seq<char>, JsonModel)>,
    existing: Set<Seq<char>>,
) -> Seq<Seq<char>>
    decreases src.len(),
{
    if src.len() == 0 {
        Seq::empty()
    } else {
        collisions_from(src.drop_last(), existing) + (if existing.contains(src.last().0) {
            seq![src.last().0]
        } else {
            Seq::empty()
        })
    }
}

/// Keys tagged with the source they collided from.
pub open spec fn tagged(keys: Seq<Seq<char>>, s: NamespaceSource) -> Seq<
    (Seq<char>, NamespaceSource),
> {
    keys.map_values(|k: Seq<char>| (k, s))
}

/// The full warning sequence the merge emits, in order of processing.
pub open spec fn expected_warnings(
    cols_e: Seq<(Seq<char>, JsonModel)>,
    vars_e: Seq<(Seq<char>, JsonModel)>,
    opts_e: Seq<(Seq<char>, JsonModel)>,
    der_e: Seq<(Seq<char>, JsonModel)>,
) -> Seq<(Seq<char>, NamespaceSource)> {
    let k1 = entries_keys(cols_e);
    let k2 = k1.union(entries_keys(vars_e));
    let k3 = k2.union(entries_keys(opts_e));
    tagged(collisions_from(vars_e, k1), NamespaceSource::Variables) + tagged(
        collisions_from(opts_e, k2),
        NamespaceSource::Options,
    ) + tagged(collisions_from(der_e, k3), NamespaceSource::SpecDerived)
}

/// Pairwise-distinct keys of raw entries.
pub open spec fn raw_distinct(e: Seq<(String, JsonValue)>) -> bool {
    forall|a: int, b: int| 0 <= a < b < e.len() ==> e[a].0@ != e[b].0@
}

/// Inserts a binding, overwriting an entry under the same key in place, and
/// reports whether it overwrote one.
#[verifier::loop_isolation(false)]
pub(crate) fn ns_insert(ns: &mut Vec<(String, JsonValue)>, key: String, val: JsonValue) -> (collided: bool)
    requires
        raw_distinct(old(ns)@),
    ensures
        raw_distinct(final(ns)@),
        collided == (entries_get(obj_model(old(ns)@), key@) is Some),
        forall|k2: Seq<char>|
            #[trigger] entries_get(obj_model(final(ns)@), k2) == (if k2 == key@ {
                Some(val@)
            } else {
                entries_get(obj_model(old(ns)@), k2)
            }),
{
    let ghost m0 = obj_model(ns@);
    let ghost kview = key@;
    let ghost vview = val@;
    proof {
        assert(entries_distinct(m0));
    }
    let mut t: usize = 0;
    while t < ns.len()
        invariant
            t <= ns.len(),
            ns@ == old(ns)@,
            forall|a: int| 0 <= a < t ==> (#[trigger] ns@[a]).0@ != kview,
        decreases ns.len() - t,
    {
        if str_eq(ns[t].0.as_str(), key.as_str()) {
            proof {
                assert(m0[t as int].0 == kview);
                lemma_entries_get_some_iff(m0, kview);
                assert(entries_keys(m0).contains(kview));
            }
            ns[t] = (key, val);
            proof {
                assert(obj_model(ns@) =~= m0.update(t as int, (kview, vview)));
                assert forall|k2: Seq<char>|
                    #[trigger] entries_get(obj_model(ns@), k2) == (if k2 == kview {
                        Some(vview)
                    } else {
                        entries_get(m0, k2)
                    }) by {
                    lemma_entries_get_update(m0, t as int, (kview, vview), k2);
                }
            }
            return true;
        }
        t = t + 1;
    }
    proof {
        assert(forall|a: int| 0 <= a < m0.len() ==> (#[trigger] m0[a]).0 != kview);
        lemma_entries_get_some_iff(m0, kview);
        if entries_keys(m0).contains(kview) {
            let a = choose|a: int| 0 <= a < m0.len() && #[trigger] m0[a].0 == kview;
        }
        assert(entries_get(m0, kview) is None);
    }
    ns.push((key, val));
    proof {
        assert(obj_model(ns@) =~= m0.push((kview, vview)));
        assert forall|k2: Seq<char>|
            #[trigger] entries_get(obj_model(ns@), k2) == (if k2 == kview {
                Some(vview)
            } else {
                entries_get(m0, k2)
            }) by {
            lemma_entries_get_push(m0, (kview, vview), k2);
        }
    }
    false
}

/// Merges one source into the namespace, recording one warning per key the
/// source overwrites.
#[verifier::loop_isolation(false)]
fn merge_source(
    ns: &mut Vec<(String, JsonValue)>,
    src: &Vec<(String, JsonValue)>,
    source: NamespaceSource,
    warns: &mut Vec<CollisionWarning>,
    Ghost(existing): Ghost<Set<Seq<char>>>,
)
    requires
        raw_distinct(old(ns)@),
        raw_distinct(src@),
        forall|k: Seq<char>|
            #[trigger] entries_get(obj_model(old(ns)@), k) is Some <==> existing.contains(k),
    ensures
        raw_distinct(final(ns)@),
        forall|k: Seq<char>|
            #[trigger] entries_get(obj_model(final(ns)@), k) == (if entries_get(
                obj_model(src@),
                k,
            ) is Some {
                entries_get(obj_model(src@), k)
            } else {
                entries_get(obj_model(old(ns)@), k)
            }),
        warn_model(final(warns)@) == warn_model(old(warns)@) + tagged(
            collisions_from(obj_model(src@), existing),
            source,
        ),
{
    let ghost m0 = obj_model(old(ns)@);
    let ghost msrc = obj_model(src@);
    let ghost w0 = warn_model(old(warns)@);
    let mut i: usize = 0;
    while i < src.len()
        invariant
            i <= src.len(),
            raw_distinct(ns@),
            forall|k: Seq<char>|
                #[trigger] entries_get(obj_model(ns@), k) == (if entries_get(
                    msrc.subrange(0, i as int),
                    k,
                ) is Some {
                    entries_get(msrc.subrange(0, i as int), k)
                } else {
                    entries_get(m0, k)
                }),
            warn_model(warns@) == w0 + tagged(
                collisions_from(msrc.subrange(0, i as int), existing),
                source,
            ),
        decreases src.len() - i,
    {
        let ghost pre = msrc.subrange(0, i as int);
        let ghost cur = msrc.subrange(0, i + 1 as int);
        proof {
            assert(cur.drop_last() =~= pre);
            assert(cur.last() == msrc[i as int]);
            assert(msrc[i as int] == (src@[i as int].0@, src@[i as int].1@));
            // The source key is new to the processed prefix.
            assert(forall|a: int| 0 <= a < i ==> (#[trigger] pre[a]).0 != msrc[i as int].0);
            lemma_entries_get_some_iff(pre, msrc[i as int].0);
            if entries_keys(pre).contains(msrc[i as int].0) {
                let a = choose|a: int|
                    0 <= a < pre.len() && #[trigger] pre[a].0 == msrc[i as int].0;
            }
            assert(entries_get(pre, msrc[i as int].0) is None);
        }
        let key = src[i].0.clone();
        let val = clone_value(&src[i].1);
        let collided = ns_insert(ns, key, val);
        if collided {
            let ghost wpre = warn_model(warns@);
            warns.push(CollisionWarning { key: src[i].0.clone(), source });
            proof {
                assert(warn_model(warns@) =~= wpre.push((src@[i as int].0@, source)));
            }
        }
        proof {
            // The per-key lookup after this step matches the longer prefix.
            assert forall|k: Seq<char>|
                #[trigger] entries_get(obj_model(ns@), k) == (if entries_get(cur, k) is Some {
                    entries_get(cur, k)
                } else {
                    entries_get(m0, k)
                }) by {
                lemma_entries_get_push(pre, cur.last(), k);
                assert(pre.push(cur.last()) =~= cur);
            }
            // The recorded warnings match the longer prefix.
            assert(collided == existing.contains(msrc[i as int].0));
            assert(collisions_from(cur, existing) =~= collisions_from(pre, existing) + (
            if existing.contains(msrc[i as int].0) {
                seq![msrc[i as int].0]
            } else {
                Seq::empty()
            }));
            assert(warn_model(warns@) =~= w0 + tagged(collisions_from(cur, existing), source));
        }
        i = i + 1;
    }
    proof {
        assert(msrc.subrange(0, src.len() as int) =~= msrc);
    }
}

/// Deep copy of a column's cells.
#[verifier::loop_isolation(false)]
fn clone_values(items: &Vec<JsonValue>) -> (r: Vec<JsonValue>)
    ensures
        arr_model(r@) == arr_model(items@),
{
    let mut out: Vec<JsonValue> = Vec::new();
    let mut i: usize = 0;
    while i < items.len()
        invariant
            i <= items.len(),
            out@.len() == i,
            forall|j: int| 0 <= j < i ==> (#[trigger] out@[j])@ == items@[j]@,
        decreases items.len() - i,
    {
        out.push(clone_value(&items[i]));
        i = i + 1;
    }
    proof {
        assert(arr_model(out@) =~= arr_model(items@));
    }
    out
}

/// Merges, in rising precedence, transposed columns, caller variables,
/// caller options (only when they form an object) and spec-derived
/// variables into one flat namespace.  The value under every key comes
/// from the highest-precedence source holding the key, and the returned
/// warnings name, in processing order, exactly the keys that overwrote an
/// entry of an earlier source, each tagged with the overwriting source.
#[verifier::loop_isolation(false)]
pub fn merge_namespace(
    cols: &Vec<(String, Vec<JsonValue>)>,
    vars: &Vec<(String, JsonValue)>,
    options: &JsonValue,
    derived: &Vec<(String, JsonValue)>,
) -> (r: (Vec<(String, JsonValue)>, Vec<CollisionWarning>))
    requires
        forall|a: int, b: int| 0 <= a < b < cols@.len() ==> cols@[a].0@ != cols@[b].0@,
        raw_distinct(vars@),
        entries_distinct(opts_entries(options@)),
        raw_distinct(derived@),
    ensures
        raw_distinct(r.0@),
        forall|k: Seq<char>|
            #[trigger] entries_get(obj_model(r.0@), k) == layered_get(
                cols_entries(cols@),
                obj_model(vars@),
                opts_entries(options@),
                obj_model(derived@),
                k,
            ),
        warn_model(r.1@) == expected_warnings(
            cols_entries(cols@),
            obj_model(vars@),
            opts_entries(options@),
            obj_model(derived@),
        ),
{
    let ghost ce = cols_entries(cols@);
    let ghost mv = obj_model(vars@);
    let ghost mo = opts_entries(options@);
    let ghost md = obj_model(derived@);
    let mut ns: Vec<(String, JsonValue)> = Vec::new();
    let mut warns: Vec<CollisionWarning> = Vec::new();
    proof {
        assert(obj_model(ns@) =~= Seq::<(Seq<char>, JsonModel)>::empty());
    }
    // Base layer: every column, as an array value.
    let mut i: usize = 0;
    while i < cols.len()
        invariant
            i <= cols.len(),
            raw_distinct(ns@),
            forall|k: Seq<char>|
                #[trigger] entries_get(obj_model(ns@), k) == entries_get(
                    ce.subrange(0, i as int),
                    k,
                ),
        decreases cols.len() - i,
    {
        let ghost pre = ce.subrange(0, i as int);
        let ghost cur = ce.subrange(0, i + 1 as int);
        let items = clone_values(&cols[i].1);
        let val = JsonValue::Arr(items);
        proof {
            assert(val@ == JsonModel::Arr(arr_model(cols@[i as int].1@)));
            assert(cur.drop_last() =~= pre);
            assert(cur.last() == ce[i as int]);
            assert(ce[i as int] == (cols@[i as int].0@, JsonModel::Arr(
                arr_model(cols@[i as int].1@),
            )));
        }
        let _ = ns_insert(&mut ns, cols[i].0.clone(), val);
        proof {
            assert forall|k: Seq<char>|
                #[trigger] entries_get(obj_model(ns@), k) == entries_get(cur, k) by {
                lemma_entries_get_push(pre, cur.last(), k);
                assert(pre.push(cur.last()) =~= cur);
            }
        }
        i = i + 1;
    }
    proof {
        assert(ce.subrange(0, cols.len() as int) =~= ce);
    }
    // Variables overwrite columns.
    let ghost k1 = entries_keys(ce);
    proof {
        assert forall|k: Seq<char>|
            #[trigger] entries_get(obj_model(ns@), k) is Some <==> k1.contains(k) by {
            lemma_entries_get_some_iff(ce, k);
        }
    }
    let ghost ns1 = ns@;
    merge_source(&mut ns, vars, NamespaceSource::Variables, &mut warns, Ghost(k1));
    // Options overwrite variables and columns, when they form an object.
    let ghost k2 = k1.union(entries_keys(mv));
    proof {
        assert forall|k: Seq<char>|
            #[trigger] entries_get(obj_model(ns@), k) is Some <==> k2.contains(k) by {
            lemma_entries_get_some_iff(ce, k);
            lemma_entries_get_some_iff(mv, k);
        }
    }
    let ghost ns2 = ns@;
    let ghost w2 = warns@;
    match options {
        JsonValue::Obj(oentries) => {
            proof {
                assert(options@ == JsonModel::Obj(obj_model(oentries@)));
                assert(mo == obj_model(oentries@));
                assert forall|a: int, b: int|
                    0 <= a < b < oentries@.len() implies oentries@[a].0@ != oentries@[b].0@ by {
                    assert(mo[a].0 == oentries@[a].0@);
                    assert(mo[b].0 == oentries@[b].0@);
                }
            }
            merge_source(&mut ns, oentries, NamespaceSource::Options, &mut warns, Ghost(k2));
        },
        _ => {
            proof {
                assert(mo =~= Seq::<(Seq<char>, JsonModel)>::empty());
                assert(collisions_from(mo, k2) =~= Seq::<Seq<char>>::empty());
                assert(warn_model(warns@) =~= warn_model(w2) + tagged(
                    collisions_from(mo, k2),
                    NamespaceSource::Options,
                ));
            }
        },
    }
    // Spec-derived variables overwrite everything.
    let ghost k3 = k2.union(entries_keys(mo));
    proof {
        assert forall|k: Seq<char>|
            #[trigger] entries_get(obj_model(ns@), k) is Some <==> k3.contains(k) by {
            lemma_entries_get_some_iff(ce, k);
            lemma_entries_get_some_iff(mv, k);
            lemma_entries_get_some_iff(mo, k);
        }
    }
    merge_source(&mut ns, derived, NamespaceSource::SpecDerived, &mut warns, Ghost(k3));
    proof {
        assert(warn_model(warns@) =~= expected_warnings(ce, mv, mo, md));
    }
    (ns, warns)
}

/// How many recorded warnings name a key.
pub open spec fn count_key(w: Seq<(Seq<char>, NamespaceSource)>, k: Seq<char>) -> nat
    decreases w.len(),
{
    if w.len() == 0 {
        0
    } else {
        count_key(w.drop_last(), k) + (if w.last().0 == k {
            1nat
        } else {
            0nat
        })
    }
}

/// Counting distributes over concatenation.
pub proof fn lemma_count_key_concat(
    a: Seq<(Seq<char>, NamespaceSource)>,
    b: Seq<(Seq<char>, NamespaceSource)>,
    k: Seq<char>,
)
    ensures
        count_key(a + b, k) == count_key(a, k) + count_key(b, k),
    decreases b.len(),
{
    if b.len() == 0 {
        assert(a + b =~= a);
    } else {
        assert((a + b).drop_last() =~= a + b.drop_last());
        assert((a + b).last() == b.last());
        lemma_count_key_concat(a, b.drop_last(), k);
    }
}

/// A source with distinct keys contributes one warning for a key exactly
/// when it holds the key and the key already existed.
pub proof fn lemma_count_key_collisions(
    src: Seq<(Seq<char>, JsonModel)>,
    ex: Set<Seq<char>>,
    s: NamespaceSource,
    k: Seq<char>,
)
    requires
        entries_distinct(src),
    ensures
        count_key(tagged(collisions_from(src, ex), s), k) == (if entries_keys(src).contains(k)
            && ex.contains(k) {
            1nat
        } else {
            0nat
        }),
    decreases src.len(),
{
    if src.len() == 0 {
        assert(tagged(collisions_from(src, ex), s) =~= Seq::<(Seq<char>, NamespaceSource)>::empty());
        assert(!entries_keys(src).contains(k));
    } else {
        let pre = src.drop_last();
        assert(entries_distinct(pre)) by {
            assert(forall|a: int| 0 <= a < src.len() - 1 ==> pre[a] == #[trigger] src[a]);
        }
        lemma_count_key_collisions(pre, ex, s, k);
        let tail = if ex.contains(src.last().0) {
            seq![src.last().0]
        } else {
            Seq::<Seq<char>>::empty()
        };
        assert(collisions_from(src, ex) == collisions_from(pre, ex) + tail);
        assert(tagged(collisions_from(pre, ex) + tail, s) =~= tagged(collisions_from(pre, ex), s)
            + tagged(tail, s));
        lemma_count_key_concat(tagged(collisions_from(pre, ex), s), tagged(tail, s), k);
        if tail.len() > 0 {
            assert(tagged(tail, s).drop_last() =~= Seq::<(Seq<char>, NamespaceSource)>::empty());
            assert(tagged(tail, s).last() == (src.last().0, s));
            assert(count_key(Seq::<(Seq<char>, NamespaceSource)>::empty(), k) == 0);
            assert(count_key(tagged(tail, s), k) == (if src.last().0 == k {
                1nat
            } else {
                0nat
            }));
        } else {
            assert(tagged(tail, s) =~= Seq::<(Seq<char>, NamespaceSource)>::empty());
            assert(count_key(tagged(tail, s), k) == 0);
        }
        if k == src.last().0 {
            assert(entries_keys(src).contains(k)) by {
                assert(src[src.len() - 1].0 == k);
            }
            assert(!entries_keys(pre).contains(k)) by {
                if entries_keys(pre).contains(k) {
                    let a = choose|a: int| 0 <= a < pre.len() && #[trigger] pre[a].0 == k;
                    assert(src[a].0 == src[src.len() - 1].0);
                }
            }
        } else {
            assert(entries_keys(src).contains(k) == entries_keys(pre).contains(k)) by {
                if entries_keys(src).contains(k) {
                    let a = choose|a: int| 0 <= a < src.len() && #[trigger] src[a].0 == k;
                    assert(a < src.len() - 1);
                    assert(pre[a].0 == k);
                }
                if entries_keys(pre).contains(k) {
                    let a = choose|a: int| 0 <= a < pre.len() && #[trigger] pre[a].0 == k;
                    assert(src[a].0 == k);
                }
            }
        }
    }
}

/// Collision precedence is deterministic: over sources with distinct
/// keys, the warning count for any key is fixed by which sources hold the
/// key — one warning for each later source whose key was already taken by
/// an earlier one.
pub proof fn lemma_warning_count(
    cols_e: Seq<(Seq<char>, JsonModel)>,
    vars_e: Seq<(Seq<char>, JsonModel)>,
    opts_e: Seq<(Seq<char>, JsonModel)>,
    der_e: Seq<(Seq<char>, JsonModel)>,
    k: Seq<char>,
)
    requires
        entries_distinct(vars_e),
        entries_distinct(opts_e),
        entries_distinct(der_e),
    ensures
        count_key(expected_warnings(cols_e, vars_e, opts_e, der_e), k) == (if entries_keys(
            vars_e,
        ).contains(k) && entries_keys(cols_e).contains(k) {
            1nat
        } else {
            0nat
        }) + (if entries_keys(opts_e).contains(k) && (entries_keys(cols_e).contains(k)
            || entries_keys(vars_e).contains(k)) {
            1nat
        } else {
            0nat
        }) + (if entries_keys(der_e).contains(k) && (entries_keys(cols_e).contains(k)
            || entries_keys(vars_e).contains(k) || entries_keys(opts_e).contains(k)) {
            1nat
        } else {
            0nat
        }),
{
    let k1 = entries_keys(cols_e);
    let k2 = k1.union(entries_keys(vars_e));
    let k3 = k2.union(entries_keys(opts_e));
    let wv = tagged(collisions_from(vars_e, k1), NamespaceSource::Variables);
    let wo = tagged(collisions_from(opts_e, k2), NamespaceSource::Options);
    let wd = tagged(collisions_from(der_e, k3), NamespaceSource::SpecDerived);
    lemma_count_key_concat(wv + wo, wd, k);
    lemma_count_key_concat(wv, wo, k);
    lemma_count_key_collisions(vars_e, k1, NamespaceSource::Variables, k);
    lemma_count_key_collisions(opts_e, k2, NamespaceSource::Options, k);
    lemma_count_key_collisions(der_e, k3, NamespaceSource::SpecDerived, k);
}

/// A key held by exactly two of the four sources yields exactly one
/// warning, whichever two they are.
pub proof fn lemma_one_warning_per_collision(
    cols_e: Seq<(Seq<char>, JsonModel)>,
    vars_e: Seq<(Seq<char>, JsonModel)>,
    opts_e: Seq<(Seq<char>, JsonModel)>,
    der_e: Seq<(Seq<char>, JsonModel)>,
    k: Seq<char>,
)
    requires
        entries_distinct(vars_e),
        entries_distinct(opts_e),
        entries_distinct(der_e),
        (if entries_keys(cols_e).contains(k) {
            1int
        } else {
            0int
        }) + (if entries_keys(vars_e).contains(k) {
            1int
        } else {
            0int
        }) + (if entries_keys(opts_e).contains(k) {
            1int
        } else {
            0int
        }) + (if entries_keys(der_e).contains(k) {
            1int
        } else {
            0int
        }) == 2,
    ensures
        count_key(expected_warnings(cols_e, vars_e, opts_e, der_e), k) == 1,
{
    lemma_warning_count(cols_e, vars_e, opts_e, der_e, k);
}

/// The console line one collision warning produces, naming the key and
/// its source.
pub fn collision_warning_message(w: &CollisionWarning) -> (r: String)
    ensures
        w.source is Variables ==> r@ == "[engine] WARNING: variable key '"@ + w.key@
            + "' collides with existing data key; overwriting."@,
        w.source is Options ==> r@ == "[engine] WARNING: option key '"@ + w.key@
            + "' collides with existing data key; overwriting."@,
        w.source is SpecDerived ==> r@ == "[engine] WARNING: spec variable key '"@ + w.key@
            + "' collides with existing data key; overwriting."@,
        w.source is Columns ==> r@ == "[engine] WARNING: column key '"@ + w.key@
            + "' collides with existing data key; overwriting."@,
{
    let mut out = match w.source {
        NamespaceSource::Columns => String::from_str("[engine] WARNING: column key '"),
        NamespaceSource::Variables => String::from_str("[engine] WARNING: variable key '"),
        NamespaceSource::Options => String::from_str("[engine] WARNING: option key '"),
        NamespaceSource::SpecDerived => String::from_str("[engine] WARNING: spec variable key '"),
    };
    out.append(w.key.as_str());
    out.append("' collides with existing data key; overwriting.");
    out
}

} // verus!
