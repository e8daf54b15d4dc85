//! A plain-value model of JSON documents, with the lookups that the event
//! logic performs on server payloads.
//!
//! Parsing and quoting are done by `serde_json`; the parsed document is
//! handed to the library as a `JsonValue`.
use vstd::prelude::*;

use crate::ids::hex_char;

verus! {

/// A JSON number, told apart as serde_json tells it apart.
#[derive(Debug, Clone, Copy, PartialEq, Eq, Structural)]
pub enum JsonNumber {
    /// A non-negative integer that fits in `u64`.
    PosInt(u64),
    /// A negative integer that fits in `i64`.
    NegInt(i64),
    /// Any other number; its value is not kept.
    Float,
}

/// A JSON document.
///
/// Objects hold their members in key order, each key once, as serde_json's
/// map holds them.
#[derive(Debug)]
pub enum JsonValue {
    Null,
    Bool(bool),
    Number(JsonNumber),
    Str(String),
    Array(Vec<JsonValue>),
    Object(Vec<(String, JsonValue)>),
}

/// The first member of `members` whose key is `key`.
pub open spec fn member(members: Seq<(String, JsonValue)>, key: Seq<char>) -> Option<JsonValue>
    decreases members.len(),
{
    if members.len() == 0 {
        None
    } else if members[0].0@ == key {
        Some(members[0].1)
    } else {
        member(members.drop_first(), key)
    }
}

/// The member `key` of `v`, when `v` is an object that has one.
pub open spec fn lookup(v: JsonValue, key: Seq<char>) -> Option<JsonValue> {
    match v {
        JsonValue::Object(members) => member(members@, key),
        _ => None,
    }
}

/// `v[key]`: the member `key` of an object, `Null` when `v` is not an object
/// or has no such member.
pub open spec fn field(v: JsonValue, key: Seq<char>) -> JsonValue {
    match lookup(v, key) {
        Some(x) => x,
        None => JsonValue::Null,
    }
}

/// `v.as_str()`: the text of a string value.
pub open spec fn as_text(v: JsonValue) -> Option<Seq<char>> {
    match v {
        JsonValue::Str(s) => Some(s@),
        _ => None,
    }
}

/// `v.as_u64()`: the value of a non-negative integer.
pub open spec fn as_nat64(v: JsonValue) -> Option<u64> {
    match v {
        JsonValue::Number(JsonNumber::PosInt(n)) => Some(n),
        _ => None,
    }
}

/// `v.as_bool()`: the value of a boolean.
pub open spec fn as_boolean(v: JsonValue) -> Option<bool> {
    match v {
        JsonValue::Bool(b) => Some(b),
        _ => None,
    }
}

/// `v.as_array().and_then(|a| a.first())`: the first element of an array.
pub open spec fn first_element(v: JsonValue) -> Option<JsonValue> {
    match v {
        JsonValue::Array(items) => if items@.len() > 0 {
            Some(items@[0])
        } else {
            None
        },
        _ => None,
    }
}

/// The text of `v[key]` when it is a string, else the empty text.
pub open spec fn text_or_empty(v: JsonValue, key: Seq<char>) -> Seq<char> {
    match as_text(field(v, key)) {
        Some(s) => s,
        None => Seq::empty(),
    }
}

#[verifier::external_type_specification]
#[verifier::external_body]
pub struct ExSerdeJsonValue(serde_json::Value);

/// The document that serde_json reads from `text`, or `None` when
/// `text` is not a JSON document.
pub uninterp spec fn parsed_json(text: Seq<char>) -> Option<JsonValue>;

/// How a character is written inside a JSON string: `"` and `\` behind a
/// backslash; backspace, form feed, line feed, carriage return and tab as
/// `\b`, `\f`, `\n`, `\r`, `\t`; other characters below U+0020 as
/// `\u00` and two lowercase hexadecimal digits; every other character as
/// itself.
pub open spec fn json_escape(c: char) -> Seq<char> {
    let n = c as int;
    if c == '"' {
        seq!['\\', '"']
    } else if c == '\\' {
        seq!['\\', '\\']
    } else if n == 8 {
        seq!['\\', 'b']
    } else if n == 12 {
        seq!['\\', 'f']
    } else if n == 10 {
        seq!['\\', 'n']
    } else if n == 13 {
        seq!['\\', 'r']
    } else if n == 9 {
        seq!['\\', 't']
    } else if n < 32 {
        seq!['\\', 'u', '0', '0', hex_char((n / 16) as nat), hex_char((n % 16) as nat)]
    } else {
        seq![c]
    }
}

/// The characters of `text`, each written as inside a JSON string.
pub open spec fn json_escaped(text: Seq<char>) -> Seq<char>
    decreases text.len(),
{
    if text.len() == 0 {
        Seq::empty()
    } else {
        json_escaped(text.drop_last()) + json_escape(text.last())
    }
}

/// The JSON string literal for `text`: the escaped text between quotes.
pub open spec fn json_string_literal(text: Seq<char>) -> Seq<char> {
    seq!['"'] + json_escaped(text) + seq!['"']
}

/// Calls `serde_json::from_str::<serde_json::Value>`. The result is the
/// document read from `text`, named `parsed_json`, as a `JsonValue`;
/// `None` when serde_json reports an error.
#[verifier::external_body]
pub(crate) fn parse_json(text: &str) -> (r: Option<JsonValue>)
    ensures
        r == parsed_json(text@),
{
    match serde_json::from_str::<serde_json::Value>(text) {
        Ok(v) => Some(from_serde_value(v)),
        Err(_) => None,
    }
}

/// Moves a `serde_json::Value` into a `JsonValue`, variant for variant;
/// numbers are told apart by `as_u64` and `as_i64`. Nothing is stated of it:
/// `parse_json` states what the two together give.
#[verifier::external_body]
fn from_serde_value(v: serde_json::Value) -> JsonValue {
    match v {
        serde_json::Value::Null => JsonValue::Null,
        serde_json::Value::Bool(b) => JsonValue::Bool(b),
        serde_json::Value::Number(n) => JsonValue::Number(
            match (n.as_u64(), n.as_i64()) {
                (Some(u), _) => JsonNumber::PosInt(u),
                (None, Some(i)) => JsonNumber::NegInt(i),
                (None, None) => JsonNumber::Float,
            },
        ),
        serde_json::Value::String(s) => JsonValue::Str(s),
        serde_json::Value::Array(a) => JsonValue::Array(a.into_iter().map(from_serde_value).collect()),
        serde_json::Value::Object(m) => JsonValue::Object(m.into_iter().map(|(k, x)| (k, from_serde_value(x))).collect()),
    }
}

/// Calls `serde_json::to_string` on a string slice: the JSON string
/// literal for `text`, with serde_json's escapes (its `ESCAPE` table and
/// `write_char_escape`), as `json_string_literal` states them.
/// Serializing a `str` does not fail; the empty string stands in the
/// unreachable error arm.
#[verifier::external_body]
pub(crate) fn quote_json(text: &str) -> (r: String)
    ensures
        r@ == json_string_literal(text@),
{
    match serde_json::to_string(text) {
        Ok(s) => s,
        Err(_) => String::new(),
    }
}

impl JsonValue {
    /// `self[key]`, where `None` stands for serde_json's `Null` answer.
    pub fn get(&self, key: &String) -> (r: Option<&JsonValue>)
        ensures
            match r {
                Some(x) => lookup(*self, key@) == Some(*x),
                None => lookup(*self, key@) is None,
            },
    {
        match self {
            JsonValue::Object(members) => {
                let mut i: usize = 0;
                assert(members@.subrange(0, members@.len() as int) =~= members@);
                while i < members.len()
                    invariant
                        i <= members@.len(),
                        lookup(*self, key@) == member(members@, key@),
                        member(members@, key@) == member(members@.subrange(i as int, members@.len() as int), key@),
                    decreases members@.len() - i,
                {
                    let ghost rest = members@.subrange(i as int, members@.len() as int);
                    assert(rest.drop_first() =~= members@.subrange(i + 1, members@.len() as int));
                    assert(rest[0] == members@[i as int]);
                    let entry = &members[i];
                    if entry.0 == *key {
                        return Some(&entry.1);
                    }
                    i = i + 1;
                }
                None
            },
            _ => None,
        }
    }

    /// The text of `self[key]` when it is a string, else the empty text
    /// (`self[key].as_str().unwrap_or("")`).
    pub fn text_field(&self, key: &String) -> (r: String)
        ensures
            r@ == text_or_empty(*self, key@),
    {
        match self.get(key) {
            Some(JsonValue::Str(s)) => s.clone(),
            _ => String::new(),
        }
    }

    /// `self[key].as_u64()`.
    pub fn u64_field(&self, key: &String) -> (r: Option<u64>)
        ensures
            r == as_nat64(field(*self, key@)),
    {
        match self.get(key) {
            Some(JsonValue::Number(JsonNumber::PosInt(n))) => Some(*n),
            _ => None,
        }
    }

    /// `self[key].as_bool()`.
    pub fn bool_field(&self, key: &String) -> (r: Option<bool>)
        ensures
            r == as_boolean(field(*self, key@)),
    {
        match self.get(key) {
            Some(JsonValue::Bool(b)) => Some(*b),
            _ => None,
        }
    }

    /// `self.as_array().and_then(|a| a.first())`.
    pub fn first_item(&self) -> (r: Option<&JsonValue>)
        ensures
            match r {
                Some(x) => first_element(*self) == Some(*x),
                None => first_element(*self) is None,
            },
    {
        match self {
            JsonValue::Array(items) => {
                if items.len() > 0 {
                    Some(&items[0])
                } else {
                    None
                }
            },
            _ => None,
        }
    }

    /// `self[key].as_str()`, copied.
    pub fn str_field(&self, key: &String) -> (r: Option<String>)
        ensures
            match r {
                Some(s) => as_text(field(*self, key@)) == Some(s@),
                None => as_text(field(*self, key@)) is None,
            },
    {
        match self.get(key) {
            Some(JsonValue::Str(s)) => Some(s.clone()),
            _ => None,
        }
    }
}

} // verus!
