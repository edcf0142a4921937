//! JSON serialization: the single-line wire text of a [`JsonValue`].
//!
//! The envelope written to an engine's input stream is produced here, so the
//! text is pinned exactly by [`json_text`].

use vstd::prelude::*;
use vstd::string::StrSliceExecFns;
use vstd::string::StringExecFns;

use crate::json::JsonModel;
use crate::json::JsonValue;
use crate::text::digit_char;
use crate::text::push_char;

verus! {

/// The hexadecimal digit character for `d` (meaningful for `d < 16`).
pub open spec fn hex_char(d: nat) -> char {
    if d < 10 {
        digit_char(d)
    } else {
        ((((d - 10) + 97) as u8) as char)
    }
}

/// How one character of a JSON string is written: escaped where JSON
/// requires it, verbatim otherwise.
pub open spec fn escaped_char(c: char) -> Seq<char> {
    if c == '"' {
        seq!['\\', '"']
    } else if c == '\\' {
        seq!['\\', '\\']
    } else if c == '\n' {
        seq!['\\', 'n']
    } else if c == '\r' {
        seq!['\\', 'r']
    } else if c == '\t' {
        seq!['\\', 't']
    } else if (c as u32) < 32 {
        seq!['\\', 'u', '0', '0', hex_char((c as u32 / 16) as nat), hex_char((c as u32 % 16) as nat)]
    } else {
        seq![c]
    }
}

/// The body of a JSON string: every character escaped as needed.
pub open spec fn escaped_str(s: Seq<char>) -> Seq<char>
    decreases s.len(),
{
    if s.len() == 0 {
        Seq::empty()
    } else {
        escaped_str(s.drop_last()) + escaped_char(s.last())
    }
}

/// The text of one object entry: quoted escaped key, colon, value text.
pub open spec fn entry_text(e: (Seq<char>, JsonModel)) -> Seq<char>
    decreases e.1, 2int,
{
    seq!['"'] + escaped_str(e.0) + seq!['"', ':'] + json_text(e.1)
}

/// The comma-separated texts of array items.
pub open spec fn arr_text(items: Seq<JsonModel>) -> Seq<char>
    decreases items, 0int,
{
    if items.len() == 0 {
        Seq::empty()
    } else if items.len() == 1 {
        json_text(items[0])
    } else {
        arr_text(items.drop_last()) + seq![','] + json_text(items.last())
    }
}

/// The comma-separated texts of object entries.
pub open spec fn obj_text(entries: Seq<(Seq<char>, JsonModel)>) -> Seq<char>
    decreases entries, 0int,
{
    if entries.len() == 0 {
        Seq::empty()
    } else if entries.len() == 1 {
        entry_text(entries[0])
    } else {
        obj_text(entries.drop_last()) + seq![','] + entry_text(entries.last())
    }
}

/// The JSON text of a model value, with no whitespace between tokens.
pub open spec fn json_text(m: JsonModel) -> Seq<char>
    decreases m, 1int,
{
    match m {
        JsonModel::Null => "null"@,
        JsonModel::Bool(b) => if b {
            "true"@
        } else {
            "false"@
        },
        JsonModel::Num(s) => s,
        JsonModel::Str(s) => seq!['"'] + escaped_str(s) + seq!['"'],
        JsonModel::Arr(items) => seq!['['] + arr_text(items) + seq![']'],
        JsonModel::Obj(entries) => seq!['{'] + obj_text(entries) + seq!['}'],
    }
}

/// Appends the escaped form of one character.
fn push_escaped_char(out: &mut String, c: char)
    ensures
        final(out)@ == old(out)@ + escaped_char(c),
{
    if c == '"' {
        push_char(out, '\\');
        push_char(out, '"');
    } else if c == '\\' {
        push_char(out, '\\');
        push_char(out, '\\');
    } else if c == '\n' {
        push_char(out, '\\');
        push_char(out, 'n');
    } else if c == '\r' {
        push_char(out, '\\');
        push_char(out, 'r');
    } else if c == '\t' {
        push_char(out, '\\');
        push_char(out, 't');
    } else if (c as u32) < 32 {
        let cu = c as u32;
        push_char(out, '\\');
        push_char(out, 'u');
        push_char(out, '0');
        push_char(out, '0');
        let hi = cu / 16;
        let lo = cu % 16;
        let hc = if hi < 10 {
            ((48 + hi as u8) as char)
        } else {
            ((97 + (hi - 10) as u8) as char)
        };
        let lc = if lo < 10 {
            ((48 + lo as u8) as char)
        } else {
            ((97 + (lo - 10) as u8) as char)
        };
        push_char(out, hc);
        push_char(out, lc);
    } else {
        push_char(out, c);
    }
}

/// Appends the escaped body of a string.
#[verifier::loop_isolation(false)]
fn append_escaped(out: &mut String, s: &str)
    ensures
        final(out)@ == old(out)@ + escaped_str(s@),
{
    let n = s.unicode_len();
    let mut i: usize = 0;
    while i < n
        invariant
            n as nat == s@.len(),
            i <= n,
            out@ == old(out)@ + escaped_str(s@.subrange(0, i as int)),
        decreases n - i,
    {
        let c = s.get_char(i);
        push_escaped_char(out, c);
        proof {
            let pre = s@.subrange(0, i as int);
            let cur = s@.subrange(0, i + 1 as int);
            assert(cur.drop_last() =~= pre);
            assert(cur.last() == s@[i as int]);
        }
        i = i + 1;
    }
    proof {
        assert(s@.subrange(0, n as int) =~= s@);
    }
}

/// Renders a JSON value as its wire text.
#[verifier::loop_isolation(false)]
pub fn to_json_string(v: &JsonValue) -> (r: String)
    ensures
        r@ == json_text(v@),
    decreases v,
{
    match v {
        JsonValue::Null => String::from_str("null"),
        JsonValue::Bool(b) => {
            if *b {
                String::from_str("true")
            } else {
                String::from_str("false")
            }
        },
        JsonValue::Num(s) => s.clone(),
        JsonValue::Str(s) => {
            let mut out = String::new();
            push_char(&mut out, '"');
            append_escaped(&mut out, s.as_str());
            push_char(&mut out, '"');
            proof {
                assert(out@ =~= seq!['"'] + escaped_str(s@) + seq!['"']);
            }
            out
        },
        JsonValue::Arr(items) => {
            let ghost mitems = v@->Arr_0;
            proof {
                assert(v@ == JsonModel::Arr(crate::json::arr_model(items@)));
                assert(mitems.len() == items.len());
                assert(forall|j: int| 0 <= j < items.len() ==> mitems[j] == items@[j]@);
            }
            let mut out = String::new();
            push_char(&mut out, '[');
            let mut i: usize = 0;
            while i < items.len()
                invariant
                    i <= items.len(),
                    out@ == seq!['['] + arr_text(mitems.subrange(0, i as int)),
                decreases items.len() - i,
            {
                if i > 0 {
                    push_char(&mut out, ',');
                }
                let t = to_json_string(&items[i]);
                out.append(t.as_str());
                proof {
                    let pre = mitems.subrange(0, i as int);
                    let cur = mitems.subrange(0, i + 1 as int);
                    assert(cur.drop_last() =~= pre);
                    assert(cur.last() == mitems[i as int]);
                    assert(out@ =~= seq!['['] + arr_text(cur));
                }
                i = i + 1;
            }
            push_char(&mut out, ']');
            proof {
                assert(mitems.subrange(0, items.len() as int) =~= mitems);
                assert(out@ =~= seq!['['] + arr_text(mitems) + seq![']']);
            }
            out
        },
        JsonValue::Obj(entries) => {
            let ghost mentries = v@->Obj_0;
            proof {
                assert(v@ == JsonModel::Obj(crate::json::obj_model(entries@)));
                assert(mentries.len() == entries.len());
                assert(forall|j: int|
                    0 <= j < entries.len() ==> mentries[j] == (entries@[j].0@, entries@[j].1@));
            }
            let mut out = String::new();
            push_char(&mut out, '{');
            let mut i: usize = 0;
            while i < entries.len()
                invariant
                    i <= entries.len(),
                    out@ == seq!['{'] + obj_text(mentries.subrange(0, i as int)),
                decreases entries.len() - i,
            {
                if i > 0 {
                    push_char(&mut out, ',');
                }
                push_char(&mut out, '"');
                append_escaped(&mut out, entries[i].0.as_str());
                push_char(&mut out, '"');
                push_char(&mut out, ':');
                let t = to_json_string(&entries[i].1);
                out.append(t.as_str());
                proof {
                    let pre = mentries.subrange(0, i as int);
                    let cur = mentries.subrange(0, i + 1 as int);
                    assert(cur.drop_last() =~= pre);
                    assert(cur.last() == mentries[i as int]);
                    assert(mentries[i as int] == (entries@[i as int].0@, entries@[i as int].1@));
                    assert(entry_text(mentries[i as int]) =~= seq!['"']
                        + escaped_str(entries@[i as int].0@) + seq!['"', ':'] + json_text(
                        entries@[i as int].1@,
                    ));
                    assert(out@ =~= seq!['{'] + obj_text(cur));
                }
                i = i + 1;
            }
            push_char(&mut out, '}');
            proof {
                assert(mentries.subrange(0, entries.len() as int) =~= mentries);
                assert(out@ =~= seq!['{'] + obj_text(mentries) + seq!['}']);
            }
            out
        },
    }
}

/// No line break anywhere in the text.
pub open spec fn single_line(s: Seq<char>) -> bool {
    forall|i: int| 0 <= i < s.len() ==> s[i] != '\n'
}

/// The escape of one character never holds a line break.
proof fn lemma_escaped_char_single_line(c: char)
    ensures
        single_line(escaped_char(c)),
{
}

/// The escaped body of a string never holds a line break.
proof fn lemma_escaped_str_single_line(s: Seq<char>)
    ensures
        single_line(escaped_str(s)),
    decreases s.len(),
{
    if s.len() > 0 {
        lemma_escaped_str_single_line(s.drop_last());
        lemma_escaped_char_single_line(s.last());
    }
}

/// The texts of array items never hold a line break.
proof fn lemma_arr_text_single_line(items: Seq<JsonModel>)
    requires
        forall|i: int| 0 <= i < items.len() ==> crate::json::wf_model(#[trigger] items[i]),
    ensures
        single_line(arr_text(items)),
    decreases items, 0int,
{
    if items.len() == 1 {
        lemma_json_text_single_line(items[0]);
    } else if items.len() > 1 {
        assert(forall|i: int|
            0 <= i < items.len() - 1 ==> crate::json::wf_model(#[trigger] items.drop_last()[i]))
            by {
            assert(forall|i: int|
                0 <= i < items.len() - 1 ==> items.drop_last()[i] == #[trigger] items[i]);
        }
        lemma_arr_text_single_line(items.drop_last());
        lemma_json_text_single_line(items.last());
    }
}

/// The text of one object entry never holds a line break.
proof fn lemma_entry_text_single_line(e: (Seq<char>, JsonModel))
    requires
        crate::json::wf_model(e.1),
    ensures
        single_line(entry_text(e)),
    decreases e.1, 3int,
{
    lemma_escaped_str_single_line(e.0);
    lemma_json_text_single_line(e.1);
}

/// The texts of object entries never hold a line break.
proof fn lemma_obj_text_single_line(entries: Seq<(Seq<char>, JsonModel)>)
    requires
        forall|i: int| 0 <= i < entries.len() ==> crate::json::wf_model((#[trigger] entries[i]).1),
    ensures
        single_line(obj_text(entries)),
    decreases entries, 0int,
{
    if entries.len() == 1 {
        lemma_entry_text_single_line(entries[0]);
    } else if entries.len() > 1 {
        assert(forall|i: int|
            0 <= i < entries.len() - 1 ==> crate::json::wf_model(
                (#[trigger] entries.drop_last()[i]).1,
            )) by {
            assert(forall|i: int|
                0 <= i < entries.len() - 1 ==> entries.drop_last()[i] == #[trigger] entries[i]);
        }
        lemma_obj_text_single_line(entries.drop_last());
        lemma_entry_text_single_line(entries.last());
    }
}

/// The wire text of a well-formed value holds no line break, so one
/// newline-terminated line frames exactly one message.
pub proof fn lemma_json_text_single_line(m: JsonModel)
    requires
        crate::json::wf_model(m),
    ensures
        single_line(json_text(m)),
    decreases m, 1int,
{
    match m {
        JsonModel::Null => {
            reveal_strlit("null");
        },
        JsonModel::Bool(b) => {
            reveal_strlit("true");
            reveal_strlit("false");
        },
        JsonModel::Num(s) => {
            assert(forall|i: int|
                0 <= i < s.len() ==> crate::json::is_number_char(#[trigger] s[i]));
        },
        JsonModel::Str(s) => {
            lemma_escaped_str_single_line(s);
        },
        JsonModel::Arr(items) => {
            lemma_arr_text_single_line(items);
        },
        JsonModel::Obj(entries) => {
            lemma_obj_text_single_line(entries);
        },
    }
}

} // verus!
