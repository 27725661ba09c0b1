//! A plain model of a parsed JSON document.
//!
//! Provider payloads and AI responses are parsed by `serde_json`; the parsed tree is handed to
//! the library as a `JsonValue`, whose contents Verus can read.
use vstd::prelude::*;
use crate::text::str_eq;

verus! {

/// A JSON number: the text that `serde_json` prints for it, and its `i64` value when it has one.
pub struct JsonNumber {
    pub text: String,
    pub int: Option<i64>,
}

/// A parsed JSON value. Object members keep the order in which the parser hands them out.
pub enum JsonValue {
    Null,
    Bool(bool),
    Number(JsonNumber),
    Str(String),
    Array(Vec<JsonValue>),
    Object(Vec<(String, JsonValue)>),
}

/// The value of the first member named `key`.
pub open spec fn lookup(entries: Seq<(String, JsonValue)>, key: Seq<char>) -> Option<JsonValue>
    decreases entries.len(),
{
    if entries.len() == 0 {
        None
    } else if entries[0].0@ == key {
        Some(entries[0].1)
    } else {
        lookup(entries.drop_first(), key)
    }
}

proof fn lemma_lookup_skip(entries: Seq<(String, JsonValue)>, key: Seq<char>, i: int)
    requires
        0 <= i < entries.len(),
        entries[i].0@ != key,
    ensures
        lookup(entries.skip(i), key) == lookup(entries.skip(i + 1), key),
{
    assert(entries.skip(i).drop_first() =~= entries.skip(i + 1));
}

/// What `serde_json::from_str::<serde_json::Value>` gives for the text, as a `JsonValue`;
/// `None` when the text is not one JSON document.
pub uninterp spec fn json_parse(text: Seq<char>) -> Option<JsonValue>;

impl JsonValue {
    /// `Value::get` with a member name: the member of an object, `None` for anything else.
    pub open spec fn get_spec(self, key: Seq<char>) -> Option<JsonValue> {
        match self {
            JsonValue::Object(entries) => lookup(entries@, key),
            _ => None,
        }
    }

    /// `Value::pointer` with a two-segment path.
    pub open spec fn get_in_spec(self, outer: Seq<char>, inner: Seq<char>) -> Option<JsonValue> {
        match self.get_spec(outer) {
            Some(v) => v.get_spec(inner),
            None => None,
        }
    }

    pub open spec fn as_i64_spec(self) -> Option<i64> {
        match self {
            JsonValue::Number(n) => n.int,
            _ => None,
        }
    }

    pub open spec fn as_str_spec(self) -> Option<Seq<char>> {
        match self {
            JsonValue::Str(s) => Some(s@),
            _ => None,
        }
    }

    pub open spec fn as_array_spec(self) -> Option<Seq<JsonValue>> {
        match self {
            JsonValue::Array(items) => Some(items@),
            _ => None,
        }
    }

    /// Parses JSON text.
    pub fn parse(text: &str) -> (r: Option<JsonValue>)
        ensures
            r == json_parse(text@),
    {
        parse_json_text(text)
    }

    pub fn get(&self, key: &str) -> (r: Option<&JsonValue>)
        ensures
            match r {
                Some(v) => self.get_spec(key@) == Some(*v),
                None => self.get_spec(key@) is None,
            },
    {
        match self {
            JsonValue::Object(entries) => {
                let mut i: usize = 0;
                proof {
                    assert(entries@.skip(0) =~= entries@);
                }
                while i < entries.len()
                    invariant
                        0 <= i <= entries.len(),
                        self.get_spec(key@) == lookup(entries@, key@),
                        lookup(entries@, key@) == lookup(entries@.skip(i as int), key@),
                    decreases entries.len() - i,
                {
                    if str_eq(entries[i].0.as_str(), key) {
                        proof {
                            let rest = entries@.skip(i as int);
                            assert(rest.len() > 0);
                            assert(rest[0] == entries@[i as int]);
                            assert(rest[0].0@ == key@);
                            assert(lookup(rest, key@) == Some(rest[0].1));
                        }
                        return Some(&entries[i].1);
                    }
                    proof {
                        lemma_lookup_skip(entries@, key@, i as int);
                    }
                    i = i + 1;
                }
                proof {
                    assert(entries@.skip(i as int).len() == 0);
                }
                None
            },
            _ => None,
        }
    }

    /// `Value::pointer("/outer/inner")`.
    pub fn get_in(&self, outer: &str, inner: &str) -> (r: Option<&JsonValue>)
        ensures
            match r {
                Some(v) => self.get_in_spec(outer@, inner@) == Some(*v),
                None => self.get_in_spec(outer@, inner@) is None,
            },
    {
        match self.get(outer) {
            Some(v) => v.get(inner),
            None => None,
        }
    }

    pub fn is_null(&self) -> (r: bool)
        ensures
            r == (*self is Null),
    {
        match self {
            JsonValue::Null => true,
            _ => false,
        }
    }

    pub fn as_i64(&self) -> (r: Option<i64>)
        ensures
            r == self.as_i64_spec(),
    {
        match self {
            JsonValue::Number(n) => n.int,
            _ => None,
        }
    }

    pub fn as_str(&self) -> (r: Option<&str>)
        ensures
            match r {
                Some(s) => self.as_str_spec() == Some(s@),
                None => self.as_str_spec() is None,
            },
    {
        match self {
            JsonValue::Str(s) => Some(s.as_str()),
            _ => None,
        }
    }

    pub fn as_array(&self) -> (r: Option<&Vec<JsonValue>>)
        ensures
            match r {
                Some(items) => self.as_array_spec() == Some(items@),
                None => self.as_array_spec() is None,
            },
    {
        match self {
            JsonValue::Array(items) => Some(items),
            _ => None,
        }
    }
}

/// `serde_json::Value`, carried through the converter below only.
#[verifier::external_type_specification]
#[verifier::external_body]
pub struct ExSerdeJsonValue(serde_json::Value);

/// Parses text with `serde_json::from_str::<serde_json::Value>` and hands the tree out as a
/// `JsonValue`. The contract names the result and claims nothing more of it.
#[verifier::external_body]
fn parse_json_text(text: &str) -> (r: Option<JsonValue>)
    ensures
        r == json_parse(text@),
{
    serde_json::from_str::<serde_json::Value>(text).ok().map(|v| from_serde(&v))
}

/// Moves a `serde_json::Value` tree into a `JsonValue` tree, variant for variant; a number keeps
/// its printed text and `Number::as_i64`.
#[verifier::external_body]
fn from_serde(v: &serde_json::Value) -> JsonValue {
    match v {
        serde_json::Value::Null => JsonValue::Null,
        serde_json::Value::Bool(b) => JsonValue::Bool(*b),
        serde_json::Value::Number(n) => JsonValue::Number(JsonNumber { text: n.to_string(), int: n.as_i64() }),
        serde_json::Value::String(s) => JsonValue::Str(s.clone()),
        serde_json::Value::Array(a) => JsonValue::Array(a.iter().map(from_serde).collect()),
        serde_json::Value::Object(m) => JsonValue::Object(m.iter().map(|(k, x)| (k.clone(), from_serde(x))).collect()),
    }
}

} // verus!
