//! Compact JSON text of a value, as `serde_json` writes it.

use vstd::prelude::*;
use crate::text::{push_char, decimal, i64_to_string};
use crate::value::{Value, Json};

verus! {

broadcast use vstd::string::group_string_axioms;

pub open spec fn hex_digit(d: nat) -> char {
    if d < 10 {
        (d + 48) as char
    } else {
        (d + 87) as char
    }
}

/// How one character is written inside a JSON string literal.
pub open spec fn json_escape_char(c: char) -> Seq<char> {
    if c == '"' {
        "\\\""@
    } else if c == '\\' {
        "\\\\"@
    } else if c == '\u{8}' {
        "\\b"@
    } else if c == '\u{c}' {
        "\\f"@
    } else if c == '\n' {
        "\\n"@
    } else if c == '\r' {
        "\\r"@
    } else if c == '\t' {
        "\\t"@
    } else if (c as u32) < 0x20 {
        "\\u00"@ + seq![hex_digit(((c as u32) / 16) as nat), hex_digit(((c as u32) % 16) as nat)]
    } else {
        seq![c]
    }
}

/// The body of a JSON string literal for `s`.
pub open spec fn json_escaped(s: Seq<char>) -> Seq<char>
    decreases s.len(),
{
    if s.len() == 0 {
        Seq::empty()
    } else {
        json_escaped(s.drop_last()) + json_escape_char(s.last())
    }
}

pub open spec fn json_string(s: Seq<char>) -> Seq<char> {
    seq!['"'] + json_escaped(s) + seq!['"']
}

/// Compact JSON text of a value; a non-integer number is written as its stored text.
pub open spec fn json_text(v: Json) -> Seq<char>
    decreases v,
{
    match v {
        Json::Null => "null"@,
        Json::Bool(b) => if b {
            "true"@
        } else {
            "false"@
        },
        Json::Int(i) => decimal(i as int),
        Json::Double(t) => t,
        Json::Str(s) => json_string(s),
        Json::Array(items) => seq!['['] + json_items(items) + seq![']'],
        Json::Object(members) => seq!['{'] + json_members(members) + seq!['}'],
    }
}

/// The items of a JSON array, separated by commas.
pub open spec fn json_items(items: Seq<Json>) -> Seq<char>
    decreases items,
{
    if items.len() == 0 {
        Seq::empty()
    } else if items.len() == 1 {
        json_text(items[0])
    } else {
        json_items(items.drop_last()) + seq![','] + json_text(items.last())
    }
}

/// The members of a JSON object, separated by commas.
pub open spec fn json_members(members: Seq<(Seq<char>, Json)>) -> Seq<char>
    decreases members,
{
    if members.len() == 0 {
        Seq::empty()
    } else if members.len() == 1 {
        json_string(members[0].0) + seq![':'] + json_text(members[0].1)
    } else {
        json_members(members.drop_last()) + seq![','] + json_string(members.last().0) + seq![':']
            + json_text(members.last().1)
    }
}

fn hex_char(d: u32) -> (c: char)
    requires
        d < 16,
    ensures
        c == hex_digit(d as nat),
{
    if d < 10 {
        ((d + 48) as u8) as char
    } else {
        ((d + 87) as u8) as char
    }
}

/// Appends the JSON string literal of `s`.
fn write_json_string(out: &mut String, s: &str)
    ensures
        final(out)@ == old(out)@ + json_string(s@),
{
    push_char(out, '"');
    let ghost head = out@;
    for c in it: s.chars()
        invariant
            it.seq() == s@,
            out@ == head + json_escaped(s@.take(it.index() as int)),
    {
        proof {
            assert(s@.take(it.index() + 1).drop_last() == s@.take(it.index() as int));
        }
        if c == '"' {
            out.append("\\\"");
        } else if c == '\\' {
            out.append("\\\\");
        } else if c == '\u{8}' {
            out.append("\\b");
        } else if c == '\u{c}' {
            out.append("\\f");
        } else if c == '\n' {
            out.append("\\n");
        } else if c == '\r' {
            out.append("\\r");
        } else if c == '\t' {
            out.append("\\t");
        } else if (c as u32) < 0x20 {
            out.append("\\u00");
            push_char(out, hex_char((c as u32) / 16));
            push_char(out, hex_char((c as u32) % 16));
        } else {
            push_char(out, c);
        }
    }
    assert(s@.take(s@.len() as int) == s@);
    push_char(out, '"');
}

/// The compact JSON text of a value.
pub fn to_json_text(v: &Value) -> (text: String)
    ensures
        text@ == json_text(v@),
    decreases v,
{
    let mut text = String::new();
    match v {
        Value::Null => text.append("null"),
        Value::Bool(b) => if *b {
            text.append("true")
        } else {
            text.append("false")
        },
        Value::Int(i) => {
            let digits = i64_to_string(*i);
            text.append(digits.as_str());
        },
        Value::Double(t) => text.append(t.as_str()),
        Value::Str(s) => write_json_string(&mut text, s.as_str()),
        Value::Array(arr) => {
            push_char(&mut text, '[');
            let ghost head = text@;
            let ghost items = v@->Array_0;
            let mut i: usize = 0;
            while i < arr.len()
                invariant
                    i <= arr.len(),
                    items.len() == arr.len(),
                    forall|k: int| 0 <= k < arr.len() ==> items[k] == (#[trigger] arr[k])@,
                    text@ == head + json_items(items.take(i as int)),
                    v@ == Json::Array(items),
                    *v == Value::Array(*arr),
                decreases arr.len() - i,
            {
                proof {
                    vstd::std_specs::vec::axiom_vec_index_decreases(*arr, i as int);
                    assert(items.take(i + 1).drop_last() == items.take(i as int));
                }
                if i > 0 {
                    push_char(&mut text, ',');
                }
                let part = to_json_text(&arr[i]);
                text.append(part.as_str());
                i = i + 1;
            }
            assert(items.take(arr.len() as int) == items);
            push_char(&mut text, ']');
        },
        Value::Object(map) => {
            push_char(&mut text, '{');
            let ghost head = text@;
            let ghost members = v@->Object_0;
            let mut i: usize = 0;
            while i < map.len()
                invariant
                    i <= map.len(),
                    members.len() == map.len(),
                    forall|k: int|
                        0 <= k < map.len() ==> members[k] == ((#[trigger] map[k]).0@, map[k].1@),
                    text@ == head + json_members(members.take(i as int)),
                    v@ == Json::Object(members),
                    *v == Value::Object(*map),
                decreases map.len() - i,
            {
                proof {
                    vstd::std_specs::vec::axiom_vec_index_decreases(*map, i as int);
                    assert(members.take(i + 1).drop_last() == members.take(i as int));
                }
                if i > 0 {
                    push_char(&mut text, ',');
                }
                write_json_string(&mut text, map[i].0.as_str());
                push_char(&mut text, ':');
                let part = to_json_text(&map[i].1);
                text.append(part.as_str());
                i = i + 1;
            }
            assert(members.take(map.len() as int) == members);
            push_char(&mut text, '}');
        },
    }
    text
}

} // verus!
