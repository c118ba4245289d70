//! A JSON document as the collectors read it.

use vstd::prelude::*;

verus! {

/// A JSON value. An object keeps its members in the order in which the map
/// that held them was walked.
#[derive(Debug)]
pub enum JsonValue {
    Null,
    Bool(bool),
    /// A number, held as the text that the JSON serialiser writes for it.
    Number(String),
    Str(String),
    Array(Vec<JsonValue>),
    Object(Vec<(String, JsonValue)>),
}

/// The value of the first member of `pairs` whose key is `key`.
pub open spec fn member(pairs: Seq<(String, JsonValue)>, key: Seq<char>) -> Option<JsonValue>
    decreases pairs.len(),
{
    if pairs.len() == 0 {
        None
    } else if pairs[0].0@ == key {
        Some(pairs[0].1)
    } else {
        member(pairs.drop_first(), key)
    }
}

impl JsonValue {
    /// `value.get(key)`: the member `key` of an object; nothing for any other value.
    pub open spec fn field(self, key: Seq<char>) -> Option<JsonValue> {
        match self {
            JsonValue::Object(pairs) => member(pairs@, key),
            _ => None,
        }
    }

    /// `value.as_str()`: the text of a string value.
    pub open spec fn text(self) -> Option<Seq<char>> {
        match self {
            JsonValue::Str(s) => Some(s@),
            _ => None,
        }
    }

    /// `value[key].as_str()`: the text of the member `key`, where it is a string.
    pub open spec fn str_field(self, key: Seq<char>) -> Option<Seq<char>> {
        match self.field(key) {
            Some(v) => v.text(),
            None => None,
        }
    }

    /// The member `key` is absent or is a string.
    pub open spec fn str_or_absent(self, key: Seq<char>) -> bool {
        self.field(key) is None || self.str_field(key) is Some
    }

    /// The member `key` is a string.
    pub open spec fn has_str(self, key: Seq<char>) -> bool {
        self.str_field(key) is Some
    }

    /// `value.as_array()`: the elements of an array.
    pub open spec fn elements(self) -> Option<Seq<JsonValue>> {
        match self {
            JsonValue::Array(items) => Some(items@),
            _ => None,
        }
    }

    /// The member `key` of this value.
    pub fn get(&self, key: &str) -> (r: Option<&JsonValue>)
        ensures
            r is None <==> self.field(key@) is None,
            r matches Some(v) ==> self.field(key@) == Some(*v),
    {
        match self {
            JsonValue::Object(pairs) => {
                let k = String::from_str(key);
                let mut i: usize = 0;
                assert(pairs@.skip(0) == pairs@);
                while i < pairs.len()
                    invariant
                        i <= pairs@.len(),
                        k@ == key@,
                        *self == JsonValue::Object(*pairs),
                        member(pairs@, key@) == member(pairs@.skip(i as int), key@),
                    decreases pairs@.len() - i,
                {
                    assert(pairs@.skip(i as int).drop_first() == pairs@.skip(i + 1));
                    assert(pairs@.skip(i as int)[0] == pairs@[i as int]);
                    if pairs[i].0 == k {
                        assert(pairs@[i as int].0@ == key@);
                        assert(member(pairs@, key@) == Some(pairs@[i as int].1));
                        return Some(&pairs[i].1);
                    }
                    i = i + 1;
                }
                None
            },
            _ => None,
        }
    }

    /// The text of a string value.
    pub fn as_str(&self) -> (r: Option<&str>)
        ensures
            r is None <==> self.text() is None,
            r matches Some(s) ==> self.text() == Some(s@),
    {
        match self {
            JsonValue::Str(s) => Some(s.as_str()),
            _ => None,
        }
    }

    /// The elements of an array value.
    pub fn as_array(&self) -> (r: Option<&Vec<JsonValue>>)
        ensures
            r is None <==> self.elements() is None,
            r matches Some(v) ==> self.elements() == Some(v@),
    {
        match self {
            JsonValue::Array(items) => Some(items),
            _ => None,
        }
    }

    /// Is the member `key` absent or a string?
    pub fn is_str_or_absent(&self, key: &str) -> (r: bool)
        ensures
            r == self.str_or_absent(key@),
    {
        match self.get(key) {
            Some(v) => v.as_str().is_some(),
            None => true,
        }
    }

    /// Is the member `key` a string?
    pub fn is_str(&self, key: &str) -> (r: bool)
        ensures
            r == self.has_str(key@),
    {
        self.get_str(key).is_some()
    }

    /// The text of the member `key`, where it is a string.
    pub fn get_str(&self, key: &str) -> (r: Option<&str>)
        ensures
            r is None <==> self.str_field(key@) is None,
            r matches Some(s) ==> self.str_field(key@) == Some(s@),
    {
        match self.get(key) {
            Some(v) => v.as_str(),
            None => None,
        }
    }
}

/// Four bits as the lower-case hexadecimal digit that JSON escapes use.
pub open spec fn hex_digit(n: u8) -> char {
    if n < 10 {
        (('0' as u8) + n) as char
    } else {
        (('a' as u8) + (n - 10)) as char
    }
}

/// How one character is written inside a JSON string literal.
pub open spec fn escaped_char(c: char) -> Seq<char> {
    if c == '"' {
        seq!['\\', '"']
    } else if c == '\\' {
        seq!['\\', '\\']
    } else if c == '\x08' {
        seq!['\\', 'b']
    } else if c == '\t' {
        seq!['\\', 't']
    } else if c == '\n' {
        seq!['\\', 'n']
    } else if c == '\x0c' {
        seq!['\\', 'f']
    } else if c == '\r' {
        seq!['\\', 'r']
    } else if (c as u32) < 0x20 {
        seq!['\\', 'u', '0', '0', hex_digit(((c as u32) / 16) as u8), hex_digit(((c as u32) % 16) as u8)]
    } else {
        seq![c]
    }
}

/// The characters of `s`, each escaped for a JSON string literal.
pub open spec fn escaped(s: Seq<char>) -> Seq<char>
    decreases s.len(),
{
    if s.len() == 0 {
        Seq::empty()
    } else {
        escaped(s.drop_last()) + escaped_char(s.last())
    }
}

/// `s` written as a JSON string literal.
pub open spec fn quoted(s: Seq<char>) -> Seq<char> {
    seq!['"'] + escaped(s) + seq!['"']
}

/// `serde_json::to_string` on a string slice: the JSON string literal for `s`,
/// with `"` and `\` escaped, the control characters below U+0020 written as
/// `\b`, `\t`, `\n`, `\f`, `\r` or `\u00xx` (lower-case hex), and every other
/// character as it is. Serialising a `str` into memory cannot fail.
#[verifier::external_body]
fn json_string_literal(s: &str) -> (r: String)
    ensures
        r@ == quoted(s@),
{
    match serde_json::to_string(s) {
        Ok(t) => t,
        Err(_) => String::new(),
    }
}

/// The compact JSON text of `v`, as serde_json's `Display` writes it.
pub open spec fn json_text(v: JsonValue) -> Seq<char>
    decreases v,
{
    match v {
        JsonValue::Null => "null"@,
        JsonValue::Bool(b) => if b { "true"@ } else { "false"@ },
        JsonValue::Number(n) => n@,
        JsonValue::Str(s) => quoted(s@),
        JsonValue::Array(items) => seq!['['] + elements_text(items@) + seq![']'],
        JsonValue::Object(pairs) => seq!['{'] + members_text(pairs@) + seq!['}'],
    }
}

/// The elements of an array, as JSON text separated by commas.
pub open spec fn elements_text(items: Seq<JsonValue>) -> Seq<char>
    decreases items,
{
    if items.len() == 0 {
        Seq::empty()
    } else {
        let head = elements_text(items.drop_last());
        let sep = if items.len() > 1 { seq![','] } else { Seq::empty() };
        head + sep + json_text(items.last())
    }
}

/// The members of an object, as `"key":value` separated by commas.
pub open spec fn members_text(pairs: Seq<(String, JsonValue)>) -> Seq<char>
    decreases pairs,
{
    if pairs.len() == 0 {
        Seq::empty()
    } else {
        let head = members_text(pairs.drop_last());
        let sep = if pairs.len() > 1 { seq![','] } else { Seq::empty() };
        head + sep + quoted(pairs.last().0@) + seq![':'] + json_text(pairs.last().1)
    }
}

/// The compact JSON text of `v` (what `v.to_string()` gives for a serde_json value).
pub fn to_json_text(v: &JsonValue) -> (r: String)
    ensures
        r@ == json_text(*v),
    decreases v,
{
    match v {
        JsonValue::Null => String::from_str("null"),
        JsonValue::Bool(b) => if *b { String::from_str("true") } else { String::from_str("false") },
        JsonValue::Number(n) => n.clone(),
        JsonValue::Str(s) => json_string_literal(s.as_str()),
        JsonValue::Array(items) => {
            let mut r = String::new();
            r.push('[');
            let mut i: usize = 0;
            while i < items.len()
                invariant
                    *v == JsonValue::Array(*items),
                    i <= items@.len(),
                    r@ == seq!['['] + elements_text(items@.take(i as int)),
                decreases items@.len() - i,
            {
                if i > 0 {
                    r.push(',');
                }
                proof {
                    assert(decreases_to!(*v => (*v)->Array_0));
                    assert(decreases_to!(*items => items@));
                    assert(decreases_to!(items@ => items@[i as int]));
                }
                let t = to_json_text(&items[i]);
                r.append(t.as_str());
                assert(items@.take(i + 1).drop_last() == items@.take(i as int));
                i = i + 1;
            }
            assert(items@.take(items@.len() as int) == items@);
            r.push(']');
            r
        },
        JsonValue::Object(pairs) => {
            let mut r = String::new();
            r.push('{');
            let mut i: usize = 0;
            while i < pairs.len()
                invariant
                    *v == JsonValue::Object(*pairs),
                    i <= pairs@.len(),
                    r@ == seq!['{'] + members_text(pairs@.take(i as int)),
                decreases pairs@.len() - i,
            {
                if i > 0 {
                    r.push(',');
                }
                let k = json_string_literal(pairs[i].0.as_str());
                r.append(k.as_str());
                r.push(':');
                proof {
                    assert(decreases_to!(*v => (*v)->Object_0));
                    assert(decreases_to!(*pairs => pairs@));
                    assert(decreases_to!(pairs@ => pairs@[i as int]));
                    assert(decreases_to!(pairs@[i as int] => pairs@[i as int].1));
                }
                let t = to_json_text(&pairs[i].1);
                r.append(t.as_str());
                assert(pairs@.take(i + 1).drop_last() == pairs@.take(i as int));
                i = i + 1;
            }
            assert(pairs@.take(pairs@.len() as int) == pairs@);
            r.push('}');
            r
        },
    }
}

} // verus!
