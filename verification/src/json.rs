use vstd::prelude::*;

use crate::config::str_eq;

verus! {

#[verifier::external_type_specification]
#[verifier::external_body]
pub struct ExJsonValue(serde_json::Value);

/// A JSON value together with its compact text.
#[derive(Debug)]
pub struct JsonValue {
    pub node: JsonNode,
    pub text: String,
}

/// The shape of a JSON value; a number keeps its value when it is an unsigned integer that
/// fits in 64 bits.
#[derive(Debug)]
pub enum JsonNode {
    Null,
    Bool(bool),
    Number(Option<u64>),
    Str(String),
    Array(Vec<JsonValue>),
    Object(Vec<(String, JsonValue)>),
}

/// The first JSON value that `serde_json`'s stream deserializer reads from the text, if it
/// reads one without error (text after that value is not looked at).
pub uninterp spec fn json_stream_first(text: Seq<char>) -> Option<JsonValue>;

/// The JSON document that `serde_json::from_str` reads from the whole text, if it is one.
pub uninterp spec fn json_document(text: Seq<char>) -> Option<JsonValue>;

/// `serde_json::Deserializer::from_str(text).into_iter().next()`, kept when it is a value.
#[verifier::external_body]
pub fn first_json_value(text: &str) -> (r: Option<JsonValue>)
    ensures
        r == json_stream_first(text@),
{
    let mut values = serde_json::Deserializer::from_str(text).into_iter::<serde_json::Value>();
    values.next().and_then(Result::ok).map(json_from_serde)
}

/// `serde_json::from_str::<Value>(text)`; the error is serde_json's message for it.
#[verifier::external_body]
pub fn parse_json_document(text: &str) -> (r: Result<JsonValue, String>)
    ensures
        match r {
            Ok(v) => json_document(text@) == Some(v),
            Err(_) => json_document(text@) is None,
        },
{
    serde_json::from_str::<serde_json::Value>(text).map(json_from_serde).map_err(|e| e.to_string())
}

/// Moves a `serde_json::Value` into the library's own representation, node for node.
#[verifier::external_body]
fn json_from_serde(value: serde_json::Value) -> JsonValue {
    let text = value.to_string();
    let node = match value {
        serde_json::Value::Null => JsonNode::Null,
        serde_json::Value::Bool(b) => JsonNode::Bool(b),
        serde_json::Value::Number(n) => JsonNode::Number(n.as_u64()),
        serde_json::Value::String(s) => JsonNode::Str(s),
        serde_json::Value::Array(a) => JsonNode::Array(a.into_iter().map(json_from_serde).collect()),
        serde_json::Value::Object(m) => JsonNode::Object(m.into_iter().map(|(k, v)| (k, json_from_serde(v))).collect()),
    };
    JsonValue { node, text }
}

/// The value stored under `key` in an object's entries (the first such entry).
pub open spec fn lookup(entries: Seq<(String, JsonValue)>, key: Seq<char>) -> Option<JsonValue>
    decreases entries.len(),
{
    if entries.len() == 0 {
        None
    } else if entries[0].0@ == key {
        Some(entries[0].1)
    } else {
        lookup(entries.drop_first(), key)
    }
}

/// `Value::get(key)` for an object; nothing for any other value.
pub open spec fn json_get(v: JsonValue, key: Seq<char>) -> Option<JsonValue> {
    match v.node {
        JsonNode::Object(entries) => lookup(entries@, key),
        _ => None,
    }
}

/// `get` on an optional value.
pub open spec fn json_get_opt(v: Option<JsonValue>, key: Seq<char>) -> Option<JsonValue> {
    match v {
        Some(x) => json_get(x, key),
        None => None,
    }
}

/// `Value::as_str`.
pub open spec fn json_str(v: Option<JsonValue>) -> Option<Seq<char>> {
    match v {
        Some(x) => match x.node {
            JsonNode::Str(s) => Some(s@),
            _ => None,
        },
        None => None,
    }
}

/// `Value::as_u64`.
pub open spec fn json_u64(v: Option<JsonValue>) -> Option<u64> {
    match v {
        Some(x) => match x.node {
            JsonNode::Number(n) => n,
            _ => None,
        },
        None => None,
    }
}

/// `Value::as_array`.
pub open spec fn json_array(v: Option<JsonValue>) -> Option<Seq<JsonValue>> {
    match v {
        Some(x) => match x.node {
            JsonNode::Array(items) => Some(items@),
            _ => None,
        },
        None => None,
    }
}

impl JsonValue {
    /// The value stored under `key`, when this is an object holding it.
    pub fn get(&self, key: &str) -> (r: Option<&JsonValue>)
        ensures
            match r {
                Some(x) => json_get(*self, key@) == Some(*x),
                None => json_get(*self, key@) is None,
            },
    {
        match &self.node {
            JsonNode::Object(entries) => {
                let mut i: usize = 0;
                assert(entries@.skip(0) =~= entries@);
                while i < entries.len()
                    invariant
                        i <= entries.len(),
                        self.node == JsonNode::Object(*entries),
                        lookup(entries@, key@) == lookup(entries@.skip(i as int), key@),
                    decreases entries.len() - i,
                {
                    assert(entries@.skip(i as int).drop_first() =~= entries@.skip(i + 1));
                    assert(entries@.skip(i as int)[0] == entries@[i as int]);
                    if str_eq(entries[i].0.as_str(), key) {
                        return Some(&entries[i].1);
                    }
                    i = i + 1;
                }
                None
            },
            _ => None,
        }
    }

    pub fn as_str(&self) -> (r: Option<&String>)
        ensures
            match r {
                Some(s) => json_str(Some(*self)) == Some(s@),
                None => json_str(Some(*self)) is None,
            },
    {
        match &self.node {
            JsonNode::Str(s) => Some(s),
            _ => None,
        }
    }

    pub fn as_u64(&self) -> (r: Option<u64>)
        ensures
            r == json_u64(Some(*self)),
    {
        match &self.node {
            JsonNode::Number(n) => *n,
            _ => None,
        }
    }

    pub fn as_array(&self) -> (r: Option<&Vec<JsonValue>>)
        ensures
            match r {
                Some(a) => json_array(Some(*self)) == Some(a@),
                None => json_array(Some(*self)) is None,
            },
    {
        match &self.node {
            JsonNode::Array(items) => Some(items),
            _ => None,
        }
    }

    pub fn is_object(&self) -> (r: bool)
        ensures
            r == (self.node is Object),
    {
        match &self.node {
            JsonNode::Object(_) => true,
            _ => false,
        }
    }
}

/// `get` on an optional value.
pub fn get_opt<'a>(v: Option<&'a JsonValue>, key: &str) -> (r: Option<&'a JsonValue>)
    ensures
        match r {
            Some(x) => json_get_opt(opt_deref(v), key@) == Some(*x),
            None => json_get_opt(opt_deref(v), key@) is None,
        },
{
    match v {
        Some(x) => x.get(key),
        None => None,
    }
}

pub open spec fn opt_deref(v: Option<&JsonValue>) -> Option<JsonValue> {
    match v {
        Some(x) => Some(*x),
        None => None,
    }
}

/// `as_str` on an optional value.
pub fn str_opt<'a>(v: Option<&'a JsonValue>) -> (r: Option<&'a String>)
    ensures
        match r {
            Some(s) => json_str(opt_deref(v)) == Some(s@),
            None => json_str(opt_deref(v)) is None,
        },
{
    match v {
        Some(x) => x.as_str(),
        None => None,
    }
}

/// `as_u64` on an optional value.
pub fn u64_opt(v: Option<&JsonValue>) -> (r: Option<u64>)
    ensures
        r == json_u64(opt_deref(v)),
{
    match v {
        Some(x) => x.as_u64(),
        None => None,
    }
}

/// `as_array` on an optional value.
pub fn array_opt<'a>(v: Option<&'a JsonValue>) -> (r: Option<&'a Vec<JsonValue>>)
    ensures
        match r {
            Some(a) => json_array(opt_deref(v)) == Some(a@),
            None => json_array(opt_deref(v)) is None,
        },
{
    match v {
        Some(x) => x.as_array(),
        None => None,
    }
}

} // verus!
