//! A JSON document as the launcher reads it: the values that its logic looks
//! at, with object members kept in their order.

use vstd::prelude::*;

verus! {

/// A JSON value. Numbers that fit in an `i64` keep their value; any other
/// number (a fraction, or an integer beyond `i64`) is `OtherNumber`.
#[derive(Debug)]
pub enum JsonValue {
    Null,
    Bool(bool),
    Int(i64),
    OtherNumber,
    Str(String),
    Array(Vec<JsonValue>),
    Object(Vec<(String, JsonValue)>),
}

/// The value of the first member named `key` among `entries`.
pub open spec fn lookup(entries: Seq<(String, JsonValue)>, key: Seq<char>) -> Option<JsonValue>
    decreases entries.len(),
{
    if entries.len() == 0 {
        None
    } else if entries[0].0@ == key {
        Some(entries[0].1)
    } else {
        lookup(entries.drop_first(), key)
    }
}

/// The member `key` of an object; nothing for a missing member or a value
/// that is not an object.
pub open spec fn json_get(v: JsonValue, key: Seq<char>) -> Option<JsonValue> {
    match v {
        JsonValue::Object(entries) => lookup(entries@, key),
        _ => None,
    }
}

/// The text of member `key`, or the empty text when it is missing or not a
/// string.
pub open spec fn str_field(v: JsonValue, key: Seq<char>) -> Seq<char> {
    match json_get(v, key) {
        Some(JsonValue::Str(s)) => s@,
        _ => seq![],
    }
}

/// The truth value of member `key`, or false when it is missing or not a
/// boolean.
pub open spec fn bool_field(v: JsonValue, key: Seq<char>) -> bool {
    match json_get(v, key) {
        Some(JsonValue::Bool(b)) => b,
        _ => false,
    }
}

/// The integer of member `key`, when it is an integer that fits in an `i64`.
pub open spec fn int_field(v: JsonValue, key: Seq<char>) -> Option<i64> {
    match json_get(v, key) {
        Some(JsonValue::Int(i)) => Some(i),
        _ => None,
    }
}

impl JsonValue {
    /// The member `key` of an object (the first one of that name), if this
    /// value is an object that has it.
    pub fn get(&self, key: &str) -> (res: Option<&JsonValue>)
        ensures
            match res {
                Some(r) => json_get(*self, key@) == Some(*r),
                None => json_get(*self, key@) is None,
            },
    {
        match self {
            JsonValue::Object(entries) => {
                let k = String::from_str(key);
                let mut i: usize = 0;
                assert(entries@.skip(0) =~= entries@);
                while i < entries.len()
                    invariant
                        i <= entries@.len(),
                        json_get(*self, key@) == lookup(entries@, key@),
                        k@ == key@,
                        lookup(entries@, key@) == lookup(entries@.skip(i as int), key@),
                    decreases entries@.len() - i,
                {
                    proof {
                        assert(entries@.skip(i as int).drop_first() =~= entries@.skip(i + 1));
                        assert(entries@.skip(i as int)[0] == entries@[i as int]);
                    }
                    if entries[i].0 == k {
                        return Some(&entries[i].1);
                    }
                    i = i + 1;
                }
                assert(entries@.skip(i as int) =~= Seq::<(String, JsonValue)>::empty());
                None
            },
            _ => None,
        }
    }

    /// The text of this value, if it is a string.
    pub fn as_str(&self) -> (res: Option<&String>)
        ensures
            match self {
                JsonValue::Str(s) => res == Some(s),
                _ => res is None,
            },
    {
        match self {
            JsonValue::Str(s) => Some(s),
            _ => None,
        }
    }
}

/// The text of member `key`, or an empty string.
pub fn string_or_default(v: &JsonValue, key: &str) -> (res: String)
    ensures
        res@ == str_field(*v, key@),
{
    match v.get(key) {
        Some(JsonValue::Str(s)) => s.clone(),
        _ => String::new(),
    }
}

/// The truth value of member `key`, or false.
pub fn bool_or_default(v: &JsonValue, key: &str) -> (res: bool)
    ensures
        res == bool_field(*v, key@),
{
    match v.get(key) {
        Some(JsonValue::Bool(b)) => *b,
        _ => false,
    }
}

/// The integer of member `key`, when it is one that fits in an `i64`.
pub fn opt_i64_or_default(v: &JsonValue, key: &str) -> (res: Option<i64>)
    ensures
        res == int_field(*v, key@),
{
    match v.get(key) {
        Some(JsonValue::Int(i)) => Some(*i),
        _ => None,
    }
}


#[verifier::external_type_specification]
#[verifier::external_body]
pub struct ExSerdeJsonValue(serde_json::Value);

/// What `serde_json` reads from the text of a JSON document: the JSON value
/// it stands for, or the parser's error message when the text is not JSON.
pub uninterp spec fn parsed_json(text: Seq<char>) -> Result<JsonValue, Seq<char>>;

/// Reads a JSON document with `serde_json::from_str` into a
/// `serde_json::Value` and converts that value one variant for one into a
/// `JsonValue`; on failure it returns the parser's error message. The
/// contract names both: the value and the message depend on the text alone.
#[verifier::external_body]
pub(crate) fn parse_json(text: &str) -> (res: Result<JsonValue, String>)
    ensures
        res is Ok <==> parsed_json(text@) is Ok,
        res matches Ok(v) ==> (parsed_json(text@) matches Ok(w) && w == v),
        res matches Err(m) ==> (parsed_json(text@) matches Err(w) && w == m@),
{
    match serde_json::from_str::<serde_json::Value>(text) {
        Ok(v) => Ok(json_from_serde(v)),
        Err(e) => Err(e.to_string()),
    }
}

/// Converts a `serde_json::Value` into a `JsonValue`, variant for variant,
/// members in the map's order; a number is `Int` when `as_i64` gives it. It is
/// the conversion inside `parse_json`, whose contract covers it.
#[verifier::external_body]
fn json_from_serde(v: serde_json::Value) -> JsonValue {
    match v {
        serde_json::Value::Null => JsonValue::Null,
        serde_json::Value::Bool(b) => JsonValue::Bool(b),
        serde_json::Value::Number(n) => match n.as_i64() {
            Some(i) => JsonValue::Int(i),
            None => JsonValue::OtherNumber,
        },
        serde_json::Value::String(s) => JsonValue::Str(s),
        serde_json::Value::Array(a) => JsonValue::Array(a.into_iter().map(json_from_serde).collect()),
        serde_json::Value::Object(m) => JsonValue::Object(
            m.into_iter().map(|(k, x)| (k, json_from_serde(x))).collect(),
        ),
    }
}

} // verus!
