//! Dataset bookkeeping: the records the host lists and loads, the file
//! naming rule, and the name ordering of a dataset listing.

use vstd::prelude::*;
use vstd::string::StrSliceExecFns;
use vstd::string::StringExecFns;

use crate::text::str_eq;

verus! {

/// One stored dataset, as listed to the caller.
#[derive(Debug)]
pub struct Dataset {
    pub name: String,
    pub path: String,
    pub size: u64,
    pub modified: Option<u64>,
}

/// A loaded dataset: its text and its format tag.
#[derive(Debug)]
pub struct DatasetContent {
    pub name: String,
    pub content: String,
    pub format: String,
}

/// The file extension a format is stored under: anything but "json" is
/// "csv".
pub open spec fn format_ext(format: Seq<char>) -> Seq<char> {
    if format == "json"@ {
        "json"@
    } else {
        "csv"@
    }
}

/// The file extension a format is stored under.
pub fn dataset_extension(format: &str) -> (r: &'static str)
    ensures
        r@ == format_ext(format@),
{
    if str_eq(format, "json") {
        "json"
    } else {
        "csv"
    }
}

/// The file name a dataset is stored under.
pub open spec fn dataset_file_text(name: Seq<char>, ext: Seq<char>) -> Seq<char> {
    name + "."@ + ext
}

/// Builds the file name a dataset is stored under.
pub fn dataset_file_name(name: &str, ext: &str) -> (r: String)
    ensures
        r@ == dataset_file_text(name@, ext@),
{
    let mut out = String::from_str(name);
    out.append(".");
    out.append(ext);
    proof {
        assert(out@ =~= dataset_file_text(name@, ext@));
    }
    out
}

/// Whether a directory entry's extension marks a dataset file.
pub fn is_dataset_extension(ext: &str) -> (r: bool)
    ensures
        r == (ext@ == "csv"@ || ext@ == "json"@),
{
    str_eq(ext, "csv") || str_eq(ext, "json")
}

/// Lexicographic order on character sequences, by scalar value.
pub open spec fn chars_le(a: Seq<char>, b: Seq<char>) -> bool
    decreases a.len(),
{
    if a.len() == 0 {
        true
    } else if b.len() == 0 {
        false
    } else if (a[0] as u32) < (b[0] as u32) {
        true
    } else if (a[0] as u32) > (b[0] as u32) {
        false
    } else {
        chars_le(a.drop_first(), b.drop_first())
    }
}

/// The order is total.
pub proof fn lemma_chars_le_total(a: Seq<char>, b: Seq<char>)
    ensures
        chars_le(a, b) || chars_le(b, a),
    decreases a.len(),
{
    if a.len() == 0 || b.len() == 0 {
    } else if (a[0] as u32) < (b[0] as u32) || (a[0] as u32) > (b[0] as u32) {
    } else {
        lemma_chars_le_total(a.drop_first(), b.drop_first());
    }
}

/// The order is transitive.
pub proof fn lemma_chars_le_trans(a: Seq<char>, b: Seq<char>, c: Seq<char>)
    requires
        chars_le(a, b),
        chars_le(b, c),
    ensures
        chars_le(a, c),
    decreases a.len(),
{
    if a.len() == 0 {
    } else if b.len() == 0 {
    } else if c.len() == 0 {
    } else {
        if (a[0] as u32) < (b[0] as u32) {
            if (b[0] as u32) <= (c[0] as u32) {
            }
        } else if (a[0] as u32) == (b[0] as u32) {
            if (b[0] as u32) < (c[0] as u32) {
            } else if (b[0] as u32) == (c[0] as u32) {
                lemma_chars_le_trans(a.drop_first(), b.drop_first(), c.drop_first());
            }
        }
    }
}

/// Compares two names in lexicographic order.
#[verifier::loop_isolation(false)]
pub fn str_le(a: &str, b: &str) -> (r: bool)
    ensures
        r == chars_le(a@, b@),
{
    let an = a.unicode_len();
    let bn = b.unicode_len();
    let mut i: usize = 0;
    proof {
        assert(a@.skip(0) =~= a@);
        assert(b@.skip(0) =~= b@);
    }
    loop
        invariant
            an as nat == a@.len(),
            bn as nat == b@.len(),
            i <= an,
            i <= bn,
            forall|j: int| 0 <= j < i ==> a@[j] == b@[j],
            chars_le(a@, b@) == chars_le(a@.skip(i as int), b@.skip(i as int)),
        decreases an - i,
    {
        if i >= an {
            proof {
                assert(a@.skip(i as int).len() == 0);
            }
            return true;
        }
        if i >= bn {
            proof {
                assert(b@.skip(i as int).len() == 0);
                assert(a@.skip(i as int).len() > 0);
            }
            return false;
        }
        let ca = a.get_char(i) as u32;
        let cb = b.get_char(i) as u32;
        proof {
            assert(a@.skip(i as int)[0] == a@[i as int]);
            assert(b@.skip(i as int)[0] == b@[i as int]);
        }
        if ca < cb {
            return true;
        }
        if ca > cb {
            return false;
        }
        proof {
            assert(a@[i as int] == b@[i as int]);
            assert(a@.skip(i as int).drop_first() =~= a@.skip(i + 1 as int));
            assert(b@.skip(i as int).drop_first() =~= b@.skip(i + 1 as int));
        }
        i = i + 1;
    }
}

/// Sorts a dataset listing by name.
///
/// The result is ordered by [`chars_le`] on the names and holds exactly
/// the input records.
#[verifier::loop_isolation(false)]
pub fn sort_datasets(datasets: Vec<Dataset>) -> (r: Vec<Dataset>)
    ensures
        forall|i: int, j: int|
            0 <= i < j < r@.len() ==> chars_le((#[trigger] r@[i]).name@, (#[trigger] r@[j]).name@),
        r@.to_multiset() == datasets@.to_multiset(),
{
    broadcast use vstd::seq_lib::group_to_multiset_ensures;

    let ghost orig = datasets@;
    let mut rest = datasets;
    let mut out: Vec<Dataset> = Vec::new();
    while rest.len() > 0
        invariant
            forall|i: int, j: int|
                0 <= i < j < out@.len() ==> chars_le(
                    (#[trigger] out@[i]).name@,
                    (#[trigger] out@[j]).name@,
                ),
            out@.to_multiset().add(rest@.to_multiset()) == orig.to_multiset(),
        decreases rest.len(),
    {
        let ghost rest0 = rest@;
        let item = match rest.pop() {
            Some(x) => x,
            None => { return out; },
        };
        proof {
            assert(rest0.drop_last() =~= rest0.remove(rest0.len() - 1));
            assert(rest@.to_multiset() =~= rest0.to_multiset().remove(item));
            assert(rest0.to_multiset().count(item) > 0) by {
                assert(rest0[rest0.len() - 1] == item);
                assert(rest0.contains(item));
            }
        }
        // Find where the item belongs in the sorted prefix.
        let mut pos: usize = 0;
        while pos < out.len()
            invariant
                pos <= out.len(),
                forall|j: int| 0 <= j < pos ==> chars_le((#[trigger] out@[j]).name@, item.name@),
            decreases out.len() - pos,
        {
            if !str_le(out[pos].name.as_str(), item.name.as_str()) {
                break ;
            }
            pos = pos + 1;
        }
        proof {
            if pos < out@.len() {
                lemma_chars_le_total(out@[pos as int].name@, item.name@);
                assert(chars_le(item.name@, out@[pos as int].name@));
            }
        }
        let ghost out0 = out@;
        let ghost iname = item.name@;
        out.insert(pos, item);
        proof {
            assert(out@ == out0.insert(pos as int, out@[pos as int]));
            out0.insert_ensures(pos as int, out@[pos as int]);
            // Order: everything before the slot is at most the item, the
            // item is at most everything after it.
            assert forall|i: int, j: int|
                0 <= i < j < out@.len() implies chars_le(
                (#[trigger] out@[i]).name@,
                (#[trigger] out@[j]).name@,
            ) by {
                if i < pos && j < pos {
                } else if i < pos && j == pos {
                } else if i == pos && j > pos {
                    if pos < out0.len() && j - 1 > pos {
                        lemma_chars_le_trans(iname, out0[pos as int].name@, out0[j - 1].name@);
                    }
                } else if i < pos && j > pos {
                } else if i > pos && j > pos {
                }
            }
            // Contents: inserting adds exactly the item.
            assert(out@.remove(pos as int) =~= out0);
            assert(out0.to_multiset() =~= out@.to_multiset().remove(out@[pos as int]));
            assert(out@.to_multiset().count(out@[pos as int]) > 0) by {
                assert(out@.contains(out@[pos as int]));
            }
            assert(out@.to_multiset() =~= out0.to_multiset().insert(out@[pos as int]));
            assert(out@.to_multiset().add(rest@.to_multiset()) =~= orig.to_multiset());
        }
    }
    proof {
        assert(rest@.to_multiset() =~= Seq::<Dataset>::empty().to_multiset());
        assert(out@.to_multiset().add(vstd::multiset::Multiset::empty()) =~= out@.to_multiset());
    }
    out
}

/// The directory the datasets are kept in, under the application's data
/// directory.
pub fn datasets_dir_name() -> (r: &'static str)
    ensures
        r@ == "datasets"@,
{
    "datasets"
}

/// The message reported when no stored dataset has the name.
pub fn dataset_not_found_message(name: &str) -> (r: String)
    ensures
        r@ == "Dataset '"@ + name@ + "' not found"@,
{
    let mut out = String::from_str("Dataset '");
    out.append(name);
    out.append("' not found");
    proof {
        assert(out@ =~= "Dataset '"@ + name@ + "' not found"@);
    }
    out
}

} // verus!
