//! JSON parsing: turns an engine's raw output text into a [`JsonValue`].
//!
//! The parser accepts one JSON document with optional surrounding
//! whitespace.  Every value it produces is well-formed in the sense of
//! [`wf_model`]: number tokens look like numbers and object keys are
//! distinct at every depth.

use vstd::prelude::*;
use vstd::string::StrSliceExecFns;

use crate::json::is_number_char;
use crate::json::is_number_token;
use crate::json::arr_model;
use crate::json::obj_model;
use crate::json::wf_model;
use crate::json::JsonModel;
use crate::json::JsonValue;
use crate::text::push_char;
use crate::text::str_eq;

verus! {

/// Whether a character counts as JSON whitespace between tokens.
pub open spec fn is_ws_char(c: char) -> bool {
    c == ' ' || c == '\t' || c == '\n' || c == '\r'
}

/// Relies on `char::from_u32`: returns `Some` exactly for valid Unicode
/// scalar values (outside the surrogate range, at most 0x10FFFF), and the
/// returned character has the given scalar value.
#[verifier::external_body]
fn char_from_u32(v: u32) -> (r: Option<char>)
    ensures
        r is Some <==> (v < 0xD800 || (0xE000 <= v && v <= 0x10FFFF)),
        r matches Some(c) ==> c as u32 == v,
{
    char::from_u32(v)
}

/// Advances past whitespace, to the first other character or the end.
fn skip_ws(s: &str, i: usize, n: usize) -> (j: usize)
    requires
        n == s@.len(),
        i <= n,
    ensures
        i <= j <= n,
        forall|t: int| i <= t < j ==> is_ws_char(s@[t]),
        j < n ==> !is_ws_char(s@[j as int]),
{
    let mut j = i;
    while j < n
        invariant
            n == s@.len(),
            i <= j <= n,
            forall|t: int| i <= t < j ==> is_ws_char(s@[t]),
        decreases n - j,
    {
        let c = s.get_char(j);
        if c == ' ' || c == '\t' || c == '\n' || c == '\r' {
            j = j + 1;
        } else {
            return j;
        }
    }
    j
}

/// The numeric value of a hexadecimal digit character.
fn parse_hex_digit(c: char) -> (r: Option<u32>)
    ensures
        r matches Some(v) ==> v < 16,
{
    let cu = c as u32;
    if 48 <= cu && cu <= 57 {
        Some(cu - 48)
    } else if 97 <= cu && cu <= 102 {
        Some(cu - 97 + 10)
    } else if 65 <= cu && cu <= 70 {
        Some(cu - 65 + 10)
    } else {
        None
    }
}

/// Reads four hexadecimal digits at `i`.
fn parse_hex4(s: &str, i: usize, n: usize) -> (r: Option<u32>)
    requires
        n == s@.len(),
        i <= n,
    ensures
        r matches Some(v) ==> v < 0x10000 && i + 4 <= n,
{
    if n - i < 4 {
        return None;
    }
    let d0 = parse_hex_digit(s.get_char(i));
    let d1 = parse_hex_digit(s.get_char(i + 1));
    let d2 = parse_hex_digit(s.get_char(i + 2));
    let d3 = parse_hex_digit(s.get_char(i + 3));
    match (d0, d1, d2, d3) {
        (Some(a), Some(b), Some(c), Some(d)) => Some(a * 4096 + b * 256 + c * 16 + d),
        _ => None,
    }
}

/// Parses a string body whose opening quote stands at `i`.
fn parse_string(s: &str, i: usize, n: usize) -> (r: Option<(String, usize)>)
    requires
        n == s@.len(),
        i < n,
    ensures
        r matches Some((t, j)) ==> i < j <= n,
{
    let mut out = String::new();
    let mut j = i + 1;
    while j < n
        invariant
            n == s@.len(),
            i < j <= n,
        decreases n - j,
    {
        let c = s.get_char(j);
        if c == '"' {
            return Some((out, j + 1));
        } else if c == '\\' {
            if j + 1 >= n {
                return None;
            }
            let e = s.get_char(j + 1);
            if e == '"' || e == '\\' || e == '/' {
                push_char(&mut out, e);
                j = j + 2;
            } else if e == 'n' {
                push_char(&mut out, '\n');
                j = j + 2;
            } else if e == 't' {
                push_char(&mut out, '\t');
                j = j + 2;
            } else if e == 'r' {
                push_char(&mut out, '\r');
                j = j + 2;
            } else if e == 'b' {
                push_char(&mut out, ((8 as u8) as char));
                j = j + 2;
            } else if e == 'f' {
                push_char(&mut out, ((12 as u8) as char));
                j = j + 2;
            } else if e == 'u' {
                let hi = match parse_hex4(s, j + 2, n) {
                    Some(v) => v,
                    None => { return None; },
                };
                if 0xD800 <= hi && hi < 0xDC00 {
                    // A high surrogate must pair with a following low one.
                    if n - j <= 8 || s.get_char(j + 6) != '\\' || s.get_char(j + 7) != 'u' {
                        return None;
                    }
                    let lo = match parse_hex4(s, j + 8, n) {
                        Some(v) => v,
                        None => { return None; },
                    };
                    if !(0xDC00 <= lo && lo < 0xE000) {
                        return None;
                    }
                    let code = 0x10000 + (hi - 0xD800) * 0x400 + (lo - 0xDC00);
                    match char_from_u32(code) {
                        Some(c2) => {
                            push_char(&mut out, c2);
                            j = j + 12;
                        },
                        None => { return None; },
                    }
                } else if 0xDC00 <= hi && hi < 0xE000 {
                    return None;
                } else {
                    match char_from_u32(hi) {
                        Some(c2) => {
                            push_char(&mut out, c2);
                            j = j + 6;
                        },
                        None => { return None; },
                    }
                }
            } else {
                return None;
            }
        } else {
            push_char(&mut out, c);
            j = j + 1;
        }
    }
    None
}

/// Scans a number token beginning at `i`.
#[verifier::loop_isolation(false)]
fn parse_number(s: &str, i: usize, n: usize) -> (r: Option<(String, usize)>)
    requires
        n == s@.len(),
        i < n,
    ensures
        r matches Some((t, j)) ==> {
            &&& i < j <= n
            &&& is_number_token(t@)
            &&& t@ == s@.subrange(i as int, j as int)
            &&& (j == n || !is_number_char(s@[j as int]))
        },
{
    let c0 = s.get_char(i);
    let c0u = c0 as u32;
    if !((48 <= c0u && c0u <= 57) || c0 == '-') {
        return None;
    }
    let mut out = String::new();
    push_char(&mut out, c0);
    proof {
        assert(out@ =~= s@.subrange(i as int, i + 1 as int));
    }
    let mut j = i + 1;
    while j < n
        invariant
            i < j <= n,
            out@ == s@.subrange(i as int, j as int),
            out@.len() > 0,
            out@[0] == c0,
            forall|t: int| 0 <= t < out@.len() ==> is_number_char(#[trigger] out@[t]),
        decreases n - j,
    {
        let c = s.get_char(j);
        let cu = c as u32;
        if (48 <= cu && cu <= 57) || c == '-' || c == '+' || c == '.' || c == 'e' || c == 'E' {
            push_char(&mut out, c);
            proof {
                assert(out@ =~= s@.subrange(i as int, j + 1 as int));
            }
            j = j + 1;
        } else {
            return Some((out, j));
        }
    }
    Some((out, j))
}

/// Replaces the value under `key` or appends a new entry, keeping keys
/// distinct and every stored value one of the old values or the new one.
#[verifier::loop_isolation(false)]
fn obj_insert(entries: &mut Vec<(String, JsonValue)>, key: String, val: JsonValue)
    requires
        forall|a: int, b: int|
            0 <= a < b < old(entries)@.len() ==> old(entries)@[a].0@ != old(entries)@[b].0@,
    ensures
        forall|a: int, b: int|
            0 <= a < b < final(entries)@.len() ==> final(entries)@[a].0@ != final(entries)@[b].0@,
        forall|a: int|
            0 <= a < final(entries)@.len() ==> (#[trigger] final(entries)@[a]).1@ == val@ || (
            exists|b: int|
                0 <= b < old(entries)@.len() && final(entries)@[a].1@ == (#[trigger] old(
                entries)@[b]).1@),
{
    let ghost oldseq = entries@;
    let ghost kview = key@;
    let ghost vview = val@;
    let mut t: usize = 0;
    while t < entries.len()
        invariant
            t <= entries.len(),
            entries@ == oldseq,
            forall|a: int| 0 <= a < t ==> entries@[a].0@ != kview,
        decreases entries.len() - t,
    {
        if str_eq(entries[t].0.as_str(), key.as_str()) {
            proof {
                assert(oldseq[t as int].0@ == kview);
            }
            entries[t] = (key, val);
            proof {
                assert(entries@ =~= oldseq.update(t as int, entries@[t as int]));
                assert(entries@[t as int].0@ == kview);
                assert forall|a: int, b: int|
                    0 <= a < b < entries@.len() implies entries@[a].0@ != entries@[b].0@ by {
                    assert(entries@[a].0@ == oldseq[a].0@);
                    assert(entries@[b].0@ == oldseq[b].0@);
                }
                assert forall|a: int| 0 <= a < entries@.len() implies entries@[a].1@ == vview || (
                exists|b: int|
                    0 <= b < oldseq.len() && entries@[a].1@ == oldseq[b].1@) by {
                    if a != t {
                        assert(entries@[a].1@ == oldseq[a].1@);
                    }
                }
            }
            return ;
        }
        t = t + 1;
    }
    entries.push((key, val));
    proof {
        assert(entries@ =~= oldseq.push(entries@[oldseq.len() as int]));
        assert(entries@[oldseq.len() as int].0@ == kview);
        assert(entries@[oldseq.len() as int].1@ == vview);
        assert forall|a: int, b: int|
            0 <= a < b < entries@.len() implies entries@[a].0@ != entries@[b].0@ by {
            if b < oldseq.len() {
                assert(entries@[a].0@ == oldseq[a].0@);
                assert(entries@[b].0@ == oldseq[b].0@);
            } else {
                assert(entries@[a].0@ == oldseq[a].0@);
                assert(entries@[b].0@ == kview);
            }
        }
        assert forall|a: int| 0 <= a < entries@.len() implies entries@[a].1@ == vview || (exists|
            b: int,
        |
            0 <= b < oldseq.len() && entries@[a].1@ == oldseq[b].1@) by {
            if a < oldseq.len() {
                assert(entries@[a].1@ == oldseq[a].1@);
            }
        }
    }
}

/// How the text at `j0` must open for a value of this shape: the keyword
/// literals stand there in full, a number token stands there verbatim as
/// a maximal run of number characters, and the three bracketed shapes are
/// announced by their opening character.
pub open spec fn token_shape(s: Seq<char>, j0: int, n: int, m: JsonModel) -> bool {
    match m {
        JsonModel::Null => j0 + 4 <= n && s.subrange(j0, j0 + 4) == "null"@,
        JsonModel::Bool(b) => if b {
            j0 + 4 <= n && s.subrange(j0, j0 + 4) == "true"@
        } else {
            j0 + 5 <= n && s.subrange(j0, j0 + 5) == "false"@
        },
        JsonModel::Num(t) => {
            &&& t.len() > 0
            &&& j0 + t.len() <= n
            &&& s.subrange(j0, j0 + t.len() as int) == t
            &&& (j0 + t.len() == n || !is_number_char(s[j0 + t.len()]))
        },
        JsonModel::Str(_) => s[j0] == '"',
        JsonModel::Arr(_) => s[j0] == '[',
        JsonModel::Obj(_) => s[j0] == '{',
    }
}

/// The text holds, from `i` on, whitespace and then a token opening the
/// value's shape.
pub open spec fn parsed_shape(s: Seq<char>, i: int, n: int, m: JsonModel) -> bool {
    exists|j0: int|
        #![trigger s[j0]]
        {
            &&& i <= j0 < n
            &&& (forall|t: int| i <= t < j0 ==> is_ws_char(s[t]))
            &&& !is_ws_char(s[j0])
            &&& token_shape(s, j0, n, m)
        }
}

/// Parses one JSON value beginning at or after `i` (whitespace skipped).
#[verifier::loop_isolation(false)]
fn parse_value(s: &str, i: usize, n: usize) -> (r: Option<(JsonValue, usize)>)
    requires
        n == s@.len(),
        i <= n,
    ensures
        r matches Some((v, j)) ==> i < j <= n && wf_model(v@) && parsed_shape(
            s@,
            i as int,
            n as int,
            v@,
        ),
    decreases n - i,
{
    let j0 = skip_ws(s, i, n);
    if j0 >= n {
        return None;
    }
    let c = s.get_char(j0);
    if c == 'n' {
        if n - j0 >= 4 && s.get_char(j0 + 1) == 'u' && s.get_char(j0 + 2) == 'l' && s.get_char(
            j0 + 3,
        ) == 'l' {
            proof {
                reveal_strlit("null");
                assert(s@[j0 as int] == 'n');
                assert(s@.subrange(j0 as int, j0 + 4) =~= "null"@);
            }
            Some((JsonValue::Null, j0 + 4))
        } else {
            None
        }
    } else if c == 't' {
        if n - j0 >= 4 && s.get_char(j0 + 1) == 'r' && s.get_char(j0 + 2) == 'u' && s.get_char(
            j0 + 3,
        ) == 'e' {
            proof {
                reveal_strlit("true");
                assert(s@[j0 as int] == 't');
                assert(s@.subrange(j0 as int, j0 + 4) =~= "true"@);
            }
            Some((JsonValue::Bool(true), j0 + 4))
        } else {
            None
        }
    } else if c == 'f' {
        if n - j0 >= 5 && s.get_char(j0 + 1) == 'a' && s.get_char(j0 + 2) == 'l' && s.get_char(
            j0 + 3,
        ) == 's' && s.get_char(j0 + 4) == 'e' {
            proof {
                reveal_strlit("false");
                assert(s@[j0 as int] == 'f');
                assert(s@.subrange(j0 as int, j0 + 5) =~= "false"@);
            }
            Some((JsonValue::Bool(false), j0 + 5))
        } else {
            None
        }
    } else if c == '"' {
        match parse_string(s, j0, n) {
            Some((t, j)) => Some((JsonValue::Str(t), j)),
            None => None,
        }
    } else if c == '[' {
        let mut items: Vec<JsonValue> = Vec::new();
        let mut k = skip_ws(s, j0 + 1, n);
        if k < n && s.get_char(k) == ']' {
            let v = JsonValue::Arr(items);
            proof {
                assert(v@ == JsonModel::Arr(arr_model(items@)));
            }
            return Some((v, k + 1));
        }
        loop
            invariant
                n == s@.len(),
                j0 < k <= n,
                i <= j0 < n,
                forall|t: int| 0 <= t < items@.len() ==> wf_model((#[trigger] items@[t])@),
            decreases n - k,
        {
            let ghost k_at_entry = k;
            match parse_value(s, k, n) {
                Some((v, k2)) => {
                    items.push(v);
                    k = k2;
                },
                None => { return None; },
            }
            k = skip_ws(s, k, n);
            if k >= n {
                return None;
            }
            let cc = s.get_char(k);
            if cc == ']' {
                let v = JsonValue::Arr(items);
                proof {
                    assert(v@ == JsonModel::Arr(arr_model(items@)));
                    assert(forall|t: int|
                        0 <= t < items@.len() ==> arr_model(items@)[t] == (#[trigger] items@[t])@);
                }
                return Some((v, k + 1));
            }
            if cc != ',' {
                return None;
            }
            k = k + 1;
            proof {
                assert(k > k_at_entry);
            }
        }
    } else if c == '{' {
        let mut entries: Vec<(String, JsonValue)> = Vec::new();
        let mut k = skip_ws(s, j0 + 1, n);
        if k < n && s.get_char(k) == '}' {
            let v = JsonValue::Obj(entries);
            proof {
                assert(v@ == JsonModel::Obj(obj_model(entries@)));
            }
            return Some((v, k + 1));
        }
        loop
            invariant
                n == s@.len(),
                j0 < k <= n,
                i <= j0 < n,
                forall|a: int, b: int|
                    0 <= a < b < entries@.len() ==> entries@[a].0@ != entries@[b].0@,
                forall|t: int| 0 <= t < entries@.len() ==> wf_model((#[trigger] entries@[t]).1@),
            decreases n - k,
        {
            let ghost k_at_entry = k;
            k = skip_ws(s, k, n);
            if k >= n || s.get_char(k) != '"' {
                return None;
            }
            let key = match parse_string(s, k, n) {
                Some((t, j)) => {
                    k = j;
                    t
                },
                None => { return None; },
            };
            k = skip_ws(s, k, n);
            if k >= n || s.get_char(k) != ':' {
                return None;
            }
            k = k + 1;
            match parse_value(s, k, n) {
                Some((v, k2)) => {
                    obj_insert(&mut entries, key, v);
                    k = k2;
                },
                None => { return None; },
            }
            k = skip_ws(s, k, n);
            if k >= n {
                return None;
            }
            let cc = s.get_char(k);
            if cc == '}' {
                let v = JsonValue::Obj(entries);
                proof {
                    assert(v@ == JsonModel::Obj(obj_model(entries@)));
                    assert(forall|t: int|
                        0 <= t < entries@.len() ==> obj_model(entries@)[t] == ((
                        #[trigger] entries@[t]).0@, entries@[t].1@));
                }
                return Some((v, k + 1));
            }
            if cc != ',' {
                return None;
            }
            k = k + 1;
            proof {
                assert(k > k_at_entry);
            }
        }
    } else {
        match parse_number(s, j0, n) {
            Some((t, j)) => {
                proof {
                    assert(s@[j0 as int] == t@[0]);
                    assert(j0 + t@.len() == j);
                }
                Some((JsonValue::Num(t), j))
            },
            None => None,
        }
    }
}

/// Parses a complete JSON document, with optional surrounding whitespace
/// and nothing else in the text.
///
/// Whatever comes back is well-formed, and the text's first
/// non-whitespace character announces the value's shape, so an empty or
/// all-whitespace text never parses.
pub fn parse_json(s: &str) -> (r: Option<JsonValue>)
    ensures
        r matches Some(v) ==> wf_model(v@) && parsed_shape(s@, 0, s@.len() as int, v@),
{
    let n = s.unicode_len();
    match parse_value(s, 0, n) {
        Some((v, j)) => {
            let j2 = skip_ws(s, j, n);
            if j2 == n {
                Some(v)
            } else {
                None
            }
        },
        None => None,
    }
}

/// The transport classification is forced by the parser's contract: the
/// text `not json` opens no JSON shape (its first character starts no
/// keyword, no number token, no string, no array and no object), so no
/// well-formed value satisfies [`parsed_shape`] on it, and by
/// [`parse_json`]'s contract that text can only fail to parse.
pub proof fn lemma_not_json_has_no_reading()
    ensures
        forall|m: JsonModel|
            !(wf_model(m) && parsed_shape("not json"@, 0, "not json"@.len() as int, m)),
{
    reveal_strlit("not json");
    reveal_strlit("null");
    reveal_strlit("true");
    reveal_strlit("false");
    let s = "not json"@;
    assert forall|m: JsonModel|
        !(wf_model(m) && parsed_shape(s, 0, s.len() as int, m)) by {
        if wf_model(m) && parsed_shape(s, 0, s.len() as int, m) {
            let j0 = choose|j0: int|
                #![trigger s[j0]]
                {
                    &&& 0 <= j0 < s.len()
                    &&& (forall|t: int| 0 <= t < j0 ==> is_ws_char(s[t]))
                    &&& !is_ws_char(s[j0])
                    &&& token_shape(s, j0, s.len() as int, m)
                };
            assert(j0 == 0) by {
                if j0 > 0 {
                    assert(is_ws_char(s[0]));
                }
            }
            match m {
                JsonModel::Null => {
                    assert(s.subrange(0, 4)[1] == 'o');
                    assert("null"@[1] == 'u');
                },
                JsonModel::Bool(b) => {
                    if b {
                        assert(s.subrange(0, 4)[0] == 'n');
                        assert("true"@[0] == 't');
                    } else {
                        assert(s.subrange(0, 5)[0] == 'n');
                        assert("false"@[0] == 'f');
                    }
                },
                JsonModel::Num(t) => {
                    assert(s.subrange(0, t.len() as int)[0] == 'n');
                    assert(t[0] == 'n');
                    assert(is_number_token(t));
                    assert(!(48 <= 'n' as u32 && 'n' as u32 <= 57) && 'n' != '-');
                },
                JsonModel::Str(_) => {
                    assert(s[0] == 'n');
                },
                JsonModel::Arr(_) => {
                    assert(s[0] == 'n');
                },
                JsonModel::Obj(_) => {
                    assert(s[0] == 'n');
                },
            }
        }
    }
}

} // verus!
