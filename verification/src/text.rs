//! Small verified text utilities shared across the crate.

use vstd::prelude::*;
use vstd::string::StrSliceExecFns;
use vstd::string::StringExecFns;

verus! {

/// Relies on `String::push`: appends the given character to the end of the
/// string, and nothing else.
#[verifier::external_body]
pub(crate) fn push_char(s: &mut String, c: char)
    ensures
        final(s)@ == old(s)@.push(c),
{
    s.push(c);
}

/// Character-wise equality of two string slices.
pub fn str_eq(a: &str, b: &str) -> (r: bool)
    ensures
        r == (a@ == b@),
{
    let alen = a.unicode_len();
    let blen = b.unicode_len();
    if alen != blen {
        return false;
    }
    let mut i: usize = 0;
    while i < alen
        invariant
            alen as nat == a@.len(),
            blen as nat == b@.len(),
            alen == blen,
            i <= alen,
            forall|j: int| 0 <= j < i ==> a@[j] == b@[j],
        decreases alen - i,
    {
        if a.get_char(i) != b.get_char(i) {
            return false;
        }
        i = i + 1;
    }
    proof {
        assert(a@ =~= b@);
    }
    true
}

/// The decimal digit character for `d` (meaningful for `d < 10`).
pub open spec fn digit_char(d: nat) -> char {
    (((d + 48) as u8) as char)
}

/// The decimal representation of `n`, most significant digit first.
pub open spec fn dec_digits(n: nat) -> Seq<char>
    decreases n,
{
    if n < 10 {
        seq![digit_char(n)]
    } else {
        dec_digits(n / 10).push(digit_char(n % 10))
    }
}

/// Renders `n` in decimal.
pub fn u128_to_dec(n: u128) -> (r: String)
    ensures
        r@ == dec_digits(n as nat),
    decreases n,
{
    if n < 10 {
        let mut s = String::new();
        push_char(&mut s, ((48 + n as u8) as char));
        s
    } else {
        let mut s = u128_to_dec(n / 10);
        push_char(&mut s, ((48 + (n % 10) as u8) as char));
        s
    }
}

/// The request identifier built from a timestamp and a process id.
pub open spec fn request_id_chars(ts: nat, pid: nat) -> Seq<char> {
    dec_digits(ts).push('-') + dec_digits(pid)
}

/// Builds the per-request identifier `<timestamp>-<pid>`.
pub fn format_request_id(ts: u128, pid: u32) -> (r: String)
    ensures
        r@ == request_id_chars(ts as nat, pid as nat),
{
    let mut s = u128_to_dec(ts);
    push_char(&mut s, '-');
    let p = u128_to_dec(pid as u128);
    s.append(p.as_str());
    s
}

/// A character lowered, for the ASCII range.
pub open spec fn lower_char(c: char) -> char {
    if 65 <= c as u32 && c as u32 <= 90 {
        (((c as u32 + 32) as u8) as char)
    } else {
        c
    }
}

/// A string lowered character by character, for the ASCII range.
pub open spec fn lower_chars(s: Seq<char>) -> Seq<char> {
    s.map_values(|c: char| lower_char(c))
}

/// Lowers ASCII letters, leaving every other character alone.
#[verifier::loop_isolation(false)]
pub fn to_ascii_lower(s: &str) -> (r: String)
    ensures
        r@ == lower_chars(s@),
{
    let n = s.unicode_len();
    let mut out = String::new();
    let mut i: usize = 0;
    while i < n
        invariant
            n as nat == s@.len(),
            i <= n,
            out@ == lower_chars(s@.subrange(0, i as int)),
        decreases n - i,
    {
        let c = s.get_char(i);
        let cu = c as u32;
        if 65 <= cu && cu <= 90 {
            push_char(&mut out, (((cu + 32) as u8) as char));
        } else {
            push_char(&mut out, c);
        }
        proof {
            assert(lower_chars(s@.subrange(0, i + 1 as int)) =~= lower_chars(
                s@.subrange(0, i as int),
            ).push(lower_char(s@[i as int])));
        }
        i = i + 1;
    }
    proof {
        assert(s@.subrange(0, n as int) =~= s@);
    }
    out
}

/// The items joined with the separator between neighbours.
pub open spec fn spec_join(items: Seq<Seq<char>>, sep: Seq<char>) -> Seq<char>
    decreases items.len(),
{
    if items.len() == 0 {
        Seq::empty()
    } else if items.len() == 1 {
        items[0]
    } else {
        spec_join(items.drop_last(), sep) + sep + items.last()
    }
}

/// Joins the strings with the separator between neighbours.
#[verifier::loop_isolation(false)]
pub fn join_strs(items: &Vec<String>, sep: &str) -> (r: String)
    ensures
        r@ == spec_join(items@.map_values(|s: String| s@), sep@),
{
    let ghost model = items@.map_values(|s: String| s@);
    let mut out = String::new();
    let mut i: usize = 0;
    while i < items.len()
        invariant
            i <= items.len(),
            out@ == spec_join(model.subrange(0, i as int), sep@),
        decreases items.len() - i,
    {
        if i > 0 {
            out.append(sep);
        }
        out.append(items[i].as_str());
        proof {
            let pre = model.subrange(0, i as int);
            let cur = model.subrange(0, i + 1 as int);
            assert(cur.drop_last() =~= pre);
            assert(cur.last() == model[i as int]);
            if i == 0 {
                assert(out@ =~= spec_join(cur, sep@));
            } else {
                assert(out@ =~= spec_join(cur, sep@));
            }
        }
        i = i + 1;
    }
    proof {
        assert(model.subrange(0, items.len() as int) =~= model);
    }
    out
}

} // verus!
