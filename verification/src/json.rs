//! Structured payload values carried by Observations and execution inputs.
//!
//! The library holds JSON documents as plain values and prints them as
//! compact JSON text; parsing happens at the edges of the program.

use vstd::prelude::*;
use crate::text::{chars_of, hex_fixed, push_chars, push_hex_fixed, push_str, text_eq};

verus! {

/// A JSON number: the unsigned value when it is a non-negative integer that
/// fits in `u64`, and its printed text.
pub struct JsonNumber {
    pub unsigned: Option<u64>,
    pub text: String,
}

/// A JSON value.
pub enum JsonValue {
    Null,
    Bool(bool),
    Number(JsonNumber),
    Str(String),
    Array(Vec<JsonValue>),
    Object(Vec<JsonMember>),
}

/// One `key: value` member of a JSON object.
pub struct JsonMember {
    pub key: String,
    pub value: JsonValue,
}

/// The value of the first member named `key`, when `v` is an object holding one.
pub open spec fn member_value(members: Seq<JsonMember>, key: Seq<char>) -> Option<JsonValue>
    decreases members.len(),
{
    if members.len() == 0 {
        None
    } else if members[0].key@ == key {
        Some(members[0].value)
    } else {
        member_value(members.drop_first(), key)
    }
}

/// `Value::get(key)` on an object; `None` on any other value.
pub open spec fn json_get(v: JsonValue, key: Seq<char>) -> Option<JsonValue> {
    match v {
        JsonValue::Object(members) => member_value(members@, key),
        _ => None,
    }
}

/// `Value::as_str`.
pub open spec fn json_str(v: Option<JsonValue>) -> Option<Seq<char>> {
    match v {
        Some(JsonValue::Str(s)) => Some(s@),
        _ => None,
    }
}

/// `Value::as_u64`.
pub open spec fn json_u64(v: Option<JsonValue>) -> Option<u64> {
    match v {
        Some(JsonValue::Number(n)) => n.unsigned,
        _ => None,
    }
}

impl JsonValue {
    /// The member named `key` of an object (`Value::get`).
    pub fn get(&self, key: &str) -> (r: Option<&JsonValue>)
        ensures
            match r {
                Some(x) => json_get(*self, key@) == Some(*x),
                None => json_get(*self, key@) is None,
            },
    {
        match self {
            JsonValue::Object(members) => {
                let k = chars_of(key);
                let mut i: usize = 0;
                assert(members@.subrange(0, members@.len() as int) =~= members@);
                while i < members.len()
                    invariant
                        i <= members.len(),
                        k@ == key@,
                        json_get(*self, key@) == member_value(members@, key@),
                        member_value(members@, key@) == member_value(members@.subrange(i as int, members@.len() as int), key@),
                    decreases members.len() - i,
                {
                    let ghost rest = members@.subrange(i as int, members@.len() as int);
                    assert(rest.drop_first() =~= members@.subrange(i + 1, members@.len() as int));
                    let mk = chars_of(members[i].key.as_str());
                    if text_eq(&mk, &k) {
                        assert(rest[0] == members@[i as int]);
                        return Some(&members[i].value);
                    }
                    i = i + 1;
                }
                None
            },
            _ => None,
        }
    }

    /// `Value::as_str`.
    pub fn as_str(&self) -> (r: Option<&String>)
        ensures
            match r {
                Some(s) => json_str(Some(*self)) == Some(s@),
                None => json_str(Some(*self)) is None,
            },
    {
        match self {
            JsonValue::Str(s) => Some(s),
            _ => None,
        }
    }

    /// `Value::as_u64`.
    pub fn as_u64(&self) -> (r: Option<u64>)
        ensures
            r == json_u64(Some(*self)),
    {
        match self {
            JsonValue::Number(n) => n.unsigned,
            _ => None,
        }
    }
}


/// A character as it stands inside a JSON string: quote, backslash and the
/// control characters escaped (short forms where JSON has them, else
/// `\u00XX` in lowercase hexadecimal).
pub open spec fn escape_char(c: char) -> Seq<char> {
    if c == '"' {
        seq!['\\', '"']
    } else if c == '\\' {
        seq!['\\', '\\']
    } else if c == '\n' {
        seq!['\\', 'n']
    } else if c == '\r' {
        seq!['\\', 'r']
    } else if c == '\t' {
        seq!['\\', 't']
    } else if (c as u32) == 8 {
        seq!['\\', 'b']
    } else if (c as u32) == 12 {
        seq!['\\', 'f']
    } else if (c as u32) < 32 {
        seq!['\\', 'u', '0', '0'] + hex_fixed(c as nat, 2)
    } else {
        seq![c]
    }
}

/// A text with every character escaped.
pub open spec fn escaped(s: Seq<char>) -> Seq<char>
    decreases s.len(),
{
    if s.len() == 0 { seq![] } else { escaped(s.drop_last()) + escape_char(s.last()) }
}

/// A JSON string literal.
pub open spec fn quoted(s: Seq<char>) -> Seq<char> {
    seq!['"'] + escaped(s) + seq!['"']
}

/// The compact JSON text of a value: no whitespace, members in their order.
pub open spec fn json_text(v: JsonValue) -> Seq<char>
    decreases v,
{
    match v {
        JsonValue::Null => "null"@,
        JsonValue::Bool(b) => if b { "true"@ } else { "false"@ },
        JsonValue::Number(n) => n.text@,
        JsonValue::Str(t) => quoted(t@),
        JsonValue::Array(items) => seq!['['] + items_text(items@) + seq![']'],
        JsonValue::Object(ms) => seq!['{'] + members_text(ms@) + seq!['}'],
    }
}

/// Values separated by commas.
pub open spec fn items_text(s: Seq<JsonValue>) -> Seq<char>
    decreases s,
{
    if s.len() == 0 {
        seq![]
    } else if s.len() == 1 {
        json_text(s[0])
    } else {
        items_text(s.subrange(0, s.len() - 1)) + seq![','] + json_text(s[s.len() - 1])
    }
}

/// Members `"key":value` separated by commas.
pub open spec fn members_text(s: Seq<JsonMember>) -> Seq<char>
    decreases s,
{
    if s.len() == 0 {
        seq![]
    } else if s.len() == 1 {
        quoted(s[0].key@) + seq![':'] + json_text(s[0].value)
    } else {
        members_text(s.subrange(0, s.len() - 1)) + seq![','] + quoted(s[s.len() - 1].key@) + seq![':'] + json_text(s[s.len() - 1].value)
    }
}


/// Appends `c` as it stands inside a JSON string.
fn push_escaped_char(out: &mut Vec<char>, c: char)
    ensures
        final(out)@ == old(out)@ + escape_char(c),
{
    let v = c as u32;
    if c == '"' {
        out.push('\\');
        out.push('"');
    } else if c == '\\' {
        out.push('\\');
        out.push('\\');
    } else if c == '\n' {
        out.push('\\');
        out.push('n');
    } else if c == '\r' {
        out.push('\\');
        out.push('r');
    } else if c == '\t' {
        out.push('\\');
        out.push('t');
    } else if v == 8 {
        out.push('\\');
        out.push('b');
    } else if v == 12 {
        out.push('\\');
        out.push('f');
    } else if v < 32 {
        out.push('\\');
        out.push('u');
        out.push('0');
        out.push('0');
        push_hex_fixed(out, v as u128, 2);
    } else {
        out.push(c);
    }
    assert(final(out)@ =~= old(out)@ + escape_char(c));
}

/// Appends `s` as a JSON string literal.
pub fn push_quoted(out: &mut Vec<char>, s: &str)
    ensures
        final(out)@ == old(out)@ + quoted(s@),
{
    let cs = chars_of(s);
    let ghost base = out@;
    out.push('"');
    let mut i: usize = 0;
    while i < cs.len()
        invariant
            i <= cs@.len(),
            out@ == base + seq!['"'] + escaped(cs@.subrange(0, i as int)),
        decreases cs.len() - i,
    {
        let ghost sub = cs@.subrange(0, i + 1);
        assert(sub.drop_last() =~= cs@.subrange(0, i as int));
        push_escaped_char(out, cs[i]);
        i = i + 1;
        assert(out@ =~= base + seq!['"'] + escaped(cs@.subrange(0, i as int)));
    }
    assert(cs@.subrange(0, cs@.len() as int) =~= cs@);
    out.push('"');
    assert(out@ =~= base + quoted(s@));
}

/// Appends the compact JSON text of `v`.
pub fn push_json(out: &mut Vec<char>, v: &JsonValue)
    ensures
        final(out)@ == old(out)@ + json_text(*v),
    decreases v,
{
    let ghost base = out@;
    match v {
        JsonValue::Null => {
            push_str(out, "null");
        },
        JsonValue::Bool(b) => {
            if *b {
                push_str(out, "true");
            } else {
                push_str(out, "false");
            }
        },
        JsonValue::Number(n) => {
            push_str(out, n.text.as_str());
        },
        JsonValue::Str(t) => {
            push_quoted(out, t.as_str());
        },
        JsonValue::Array(items) => {
            out.push('[');
            let mut i: usize = 0;
            while i < items.len()
                invariant
                    i <= items@.len(),
                    out@ == base + seq!['['] + items_text(items@.subrange(0, i as int)),
                    *v is Array && (*v)->Array_0 == *items,
                decreases items.len() - i,
            {
                let ghost sub = items@.subrange(0, i + 1);
                assert(sub.subrange(0, sub.len() - 1) =~= items@.subrange(0, i as int));
                assert(sub[sub.len() - 1] == items@[i as int]);
                if i > 0 {
                    out.push(',');
                }
                proof {
                    assert(*v is Array);
                    assert((*v)->Array_0 == *items);
                    assert(decreases_to!((*v)->Array_0 => (*v)->Array_0@));
                    assert(decreases_to!((*v)->Array_0@ => (*v)->Array_0@[i as int]));
                }
                push_json(out, &items[i]);
                i = i + 1;
                assert(out@ =~= base + seq!['['] + items_text(items@.subrange(0, i as int)));
            }
            assert(items@.subrange(0, items@.len() as int) =~= items@);
            out.push(']');
        },
        JsonValue::Object(ms) => {
            out.push('{');
            let mut i: usize = 0;
            while i < ms.len()
                invariant
                    i <= ms@.len(),
                    out@ == base + seq!['{'] + members_text(ms@.subrange(0, i as int)),
                    *v is Object && (*v)->Object_0 == *ms,
                decreases ms.len() - i,
            {
                let ghost sub = ms@.subrange(0, i + 1);
                assert(sub.subrange(0, sub.len() - 1) =~= ms@.subrange(0, i as int));
                assert(sub[sub.len() - 1] == ms@[i as int]);
                if i > 0 {
                    out.push(',');
                }
                push_quoted(out, ms[i].key.as_str());
                out.push(':');
                proof {
                    assert(*v is Object);
                    assert((*v)->Object_0 == *ms);
                    assert(decreases_to!((*v)->Object_0 => (*v)->Object_0@));
                    assert(decreases_to!((*v)->Object_0@ => (*v)->Object_0@[i as int]));
                    assert(decreases_to!((*v)->Object_0@[i as int] => (*v)->Object_0@[i as int].value));
                }
                push_json(out, &ms[i].value);
                i = i + 1;
                assert(out@ =~= base + seq!['{'] + members_text(ms@.subrange(0, i as int)));
            }
            assert(ms@.subrange(0, ms@.len() as int) =~= ms@);
            out.push('}');
        },
    }
    assert(out@ =~= base + json_text(*v));
}


/// The compact JSON text of `v`.
pub fn json_string(v: &JsonValue) -> (s: String)
    ensures
        s@ == json_text(*v),
{
    let mut out: Vec<char> = Vec::new();
    push_json(&mut out, v);
    assert(out@ =~= json_text(*v));
    crate::text::to_string(&out)
}

} // verus!
