//! The compact JSON text of a value.
use crate::text::push_char;
use crate::value::JsonValue;
use vstd::prelude::*;

verus! {

/// The four lowest hexadecimal digits of `n`, in lower case.
pub open spec fn hex_digit(n: nat) -> char {
    if n < 10 {
        (48 + n) as u8 as char
    } else {
        (87 + n) as u8 as char
    }
}

/// The JSON escape sequence that stands for `c` inside a string.
pub open spec fn escape_char(c: char) -> Seq<char> {
    if c == '"' {
        seq!['\\', '"']
    } else if c == '\\' {
        seq!['\\', '\\']
    } else if c == '\n' {
        seq!['\\', 'n']
    } else if c == '\r' {
        seq!['\\', 'r']
    } else if c == '\t' {
        seq!['\\', 't']
    } else if c == '\u{8}' {
        seq!['\\', 'b']
    } else if c == '\u{c}' {
        seq!['\\', 'f']
    } else if (c as u32) < 0x20 {
        seq!['\\', 'u', '0', '0', hex_digit((c as nat) / 16), hex_digit((c as nat) % 16)]
    } else {
        seq![c]
    }
}

/// The characters of `s`, each escaped for a JSON string.
pub open spec fn escape_json(s: Seq<char>) -> Seq<char>
    decreases s.len(),
{
    if s.len() == 0 {
        Seq::<char>::empty()
    } else {
        escape_json(s.drop_last()) + escape_char(s.last())
    }
}

/// A JSON string holding `s`.
pub open spec fn json_string(s: Seq<char>) -> Seq<char> {
    seq!['"'] + escape_json(s) + seq!['"']
}

/// The compact JSON text of `v`.
pub open spec fn json_text(v: JsonValue) -> Seq<char>
    decreases v, 0nat,
{
    match v {
        JsonValue::Null => "null"@,
        JsonValue::Bool(b) => if b {
            "true"@
        } else {
            "false"@
        },
        JsonValue::Number(t) => t@,
        JsonValue::Str(s) => json_string(s@),
        JsonValue::Array(items) => "["@ + json_items(items@, items@.len()) + "]"@,
        JsonValue::Object(entries) => "{"@ + json_entries(entries@, entries@.len()) + "}"@,
    }
}

/// The JSON texts of the first `n` items, separated by commas.
pub open spec fn json_items(items: Seq<JsonValue>, n: nat) -> Seq<char>
    decreases items, n,
{
    if n == 0 || n > items.len() {
        Seq::<char>::empty()
    } else if n == 1 {
        json_text(items[0])
    } else {
        json_items(items, (n - 1) as nat) + ","@ + json_text(items[n - 1])
    }
}

/// The first `n` entries as JSON members, separated by commas.
pub open spec fn json_entries(entries: Seq<(String, JsonValue)>, n: nat) -> Seq<char>
    decreases entries, n,
{
    if n == 0 || n > entries.len() {
        Seq::<char>::empty()
    } else {
        let member = json_string(entries[n - 1].0@) + ":"@ + json_text(entries[n - 1].1);
        if n == 1 {
            member
        } else {
            json_entries(entries, (n - 1) as nat) + ","@ + member
        }
    }
}

/// Appends `s` to `out` as a JSON string.
fn push_json_string(out: &mut String, s: &str)
    ensures
        final(out)@ == old(out)@ + json_string(s@),
{
    push_char(out, '"');
    let n = s.unicode_len();
    let mut i: usize = 0;
    while i < n
        invariant
            n == s@.len(),
            i <= n,
            out@ == old(out)@ + seq!['"'] + escape_json(s@.subrange(0, i as int)),
        decreases n - i,
    {
        let c = s.get_char(i);
        let ghost next = s@.subrange(0, i + 1);
        assert(next.drop_last() =~= s@.subrange(0, i as int));
        if c == '"' {
            push_char(out, '\\');
            push_char(out, '"');
        } else if c == '\\' {
            push_char(out, '\\');
            push_char(out, '\\');
        } else if c == '\n' {
            push_char(out, '\\');
            push_char(out, 'n');
        } else if c == '\r' {
            push_char(out, '\\');
            push_char(out, 'r');
        } else if c == '\t' {
            push_char(out, '\\');
            push_char(out, 't');
        } else if c == '\u{8}' {
            push_char(out, '\\');
            push_char(out, 'b');
        } else if c == '\u{c}' {
            push_char(out, '\\');
            push_char(out, 'f');
        } else if (c as u32) < 0x20 {
            let code = c as u32;
            let hi = (code / 16) as u8;
            let lo = (code % 16) as u8;
            push_char(out, '\\');
            push_char(out, 'u');
            push_char(out, '0');
            push_char(out, '0');
            push_char(out, if hi < 10 { (48 + hi) as char } else { (87 + hi) as char });
            push_char(out, if lo < 10 { (48 + lo) as char } else { (87 + lo) as char });
        } else {
            push_char(out, c);
        }
        assert(out@ =~= old(out)@ + seq!['"'] + escape_json(next));
        i = i + 1;
    }
    assert(s@.subrange(0, n as int) =~= s@);
    push_char(out, '"');
    assert(out@ =~= old(out)@ + json_string(s@));
}

/// Appends the compact JSON text of `v` to `out`.
pub fn push_json(out: &mut String, v: &JsonValue)
    ensures
        final(out)@ == old(out)@ + json_text(*v),
    decreases v,
{
    match v {
        JsonValue::Null => out.append("null"),
        JsonValue::Bool(b) => if *b {
            out.append("true")
        } else {
            out.append("false")
        },
        JsonValue::Number(t) => out.append(t.as_str()),
        JsonValue::Str(s) => push_json_string(out, s.as_str()),
        JsonValue::Array(items) => {
            out.append("[");
            let mut i: usize = 0;
            assert forall|j: int| 0 <= j < items@.len() implies decreases_to!(*v => #[trigger] items@[j]) by {
                assert(decreases_to!(*v => v->Array_0));
                assert(decreases_to!(v->Array_0 => v->Array_0@));
                assert(decreases_to!(v->Array_0@ => v->Array_0@[j]));
            }
            while i < items.len()
                invariant
                    i <= items@.len(),
                    forall|j: int| 0 <= j < items@.len() ==> decreases_to!(*v => #[trigger] items@[j]),
                    out@ == old(out)@ + "["@ + json_items(items@, i as nat),
                decreases items.len() - i,
            {
                if i > 0 {
                    out.append(",");
                }
                push_json(out, &items[i]);
                i = i + 1;
                assert(out@ =~= old(out)@ + "["@ + json_items(items@, i as nat));
            }
            out.append("]");
            assert(out@ =~= old(out)@ + json_text(*v));
        },
        JsonValue::Object(entries) => {
            out.append("{");
            let mut i: usize = 0;
            assert forall|j: int| 0 <= j < entries@.len() implies decreases_to!(*v => #[trigger] entries@[j].1) by {
                assert(decreases_to!(*v => v->Object_0));
                assert(decreases_to!(v->Object_0 => v->Object_0@));
                assert(decreases_to!(v->Object_0@ => v->Object_0@[j]));
                assert(decreases_to!(v->Object_0@[j] => v->Object_0@[j].1));
            }
            while i < entries.len()
                invariant
                    i <= entries@.len(),
                    forall|j: int| 0 <= j < entries@.len() ==> decreases_to!(*v => #[trigger] entries@[j].1),
                    out@ == old(out)@ + "{"@ + json_entries(entries@, i as nat),
                decreases entries.len() - i,
            {
                if i > 0 {
                    out.append(",");
                }
                push_json_string(out, entries[i].0.as_str());
                out.append(":");
                push_json(out, &entries[i].1);
                i = i + 1;
                assert(out@ =~= old(out)@ + "{"@ + json_entries(entries@, i as nat));
            }
            out.append("}");
            assert(out@ =~= old(out)@ + json_text(*v));
        },
    }
}

} // verus!
