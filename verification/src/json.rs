//! JSON documents as plain values the library can read and build, and the
//! calls into `serde_json` that read and write their text.
use vstd::prelude::*;
use crate::text::str_eq;

verus! {

#[verifier::external_type_specification]
#[verifier::external_body]
pub struct ExNumber(serde_json::Number);

#[verifier::external_type_specification]
#[verifier::external_body]
pub struct ExValue(serde_json::Value);

/// A JSON value. Numbers are kept as `serde_json` holds them; an object is its
/// members in order.
#[derive(Debug)]
pub enum JsonValue {
    Null,
    Bool(bool),
    Number(serde_json::Number),
    Str(String),
    Array(Vec<JsonValue>),
    Object(Vec<(String, JsonValue)>),
}

/// What `serde_json::from_str` reads from a text as a `serde_json::Value`,
/// taken member for member as a `JsonValue`; or the error's message.
pub uninterp spec fn json_parse(text: Seq<char>) -> Result<JsonValue, Seq<char>>;

/// What `serde_json::from_slice` reads from bytes as a `serde_json::Value`,
/// taken member for member as a `JsonValue`; `None` where it fails.
pub uninterp spec fn json_from_bytes(bytes: Seq<u8>) -> Option<JsonValue>;

/// The text that `serde_json::to_string_pretty` writes for a value.
pub uninterp spec fn json_pretty(v: JsonValue) -> Seq<char>;

/// The text that `serde_json::to_string` writes for a value.
pub uninterp spec fn json_compact(v: JsonValue) -> Seq<char>;

/// The member `key` of an object's members: the first with that key.
pub open spec fn field_of(fs: Seq<(String, JsonValue)>, key: Seq<char>) -> Option<JsonValue>
    decreases fs.len(),
{
    if fs.len() == 0 {
        None
    } else if fs[0].0@ == key {
        Some(fs[0].1)
    } else {
        field_of(fs.drop_first(), key)
    }
}

/// The member `key` of a value: none unless it is an object with that member.
pub open spec fn get(v: JsonValue, key: Seq<char>) -> Option<JsonValue> {
    match v {
        JsonValue::Object(fs) => field_of(fs@, key),
        _ => None,
    }
}

/// The member `key` of a value, if there is a value.
pub open spec fn get_in(o: Option<JsonValue>, key: Seq<char>) -> Option<JsonValue> {
    match o {
        Some(v) => get(v, key),
        None => None,
    }
}

/// The text of a value that is a string.
pub open spec fn text_at(o: Option<JsonValue>) -> Option<Seq<char>> {
    match o {
        Some(JsonValue::Str(s)) => Some(s@),
        _ => None,
    }
}

/// The view of an optional owned text.
pub open spec fn opt_chars(o: Option<String>) -> Option<Seq<char>> {
    match o {
        Some(s) => Some(s@),
        None => None,
    }
}

/// A `serde_json::Value` taken member for member as a `JsonValue`.
#[verifier::external_body]
fn from_serde(v: &serde_json::Value) -> JsonValue {
    match v {
        serde_json::Value::Null => JsonValue::Null,
        serde_json::Value::Bool(b) => JsonValue::Bool(*b),
        serde_json::Value::Number(n) => JsonValue::Number(n.clone()),
        serde_json::Value::String(s) => JsonValue::Str(s.clone()),
        serde_json::Value::Array(xs) => JsonValue::Array(xs.iter().map(from_serde).collect()),
        serde_json::Value::Object(fs) => JsonValue::Object(fs.iter().map(|(k, x)| (k.clone(), from_serde(x))).collect()),
    }
}

/// A `JsonValue` taken member for member as a `serde_json::Value` (of members
/// with the same key, the last is kept).
#[verifier::external_body]
fn to_serde(v: &JsonValue) -> serde_json::Value {
    match v {
        JsonValue::Null => serde_json::Value::Null,
        JsonValue::Bool(b) => serde_json::Value::Bool(*b),
        JsonValue::Number(n) => serde_json::Value::Number(n.clone()),
        JsonValue::Str(s) => serde_json::Value::String(s.clone()),
        JsonValue::Array(xs) => serde_json::Value::Array(xs.iter().map(to_serde).collect()),
        JsonValue::Object(fs) => serde_json::Value::Object(fs.iter().map(|(k, x)| (k.clone(), to_serde(x))).collect()),
    }
}

/// `serde_json::from_str` into a `serde_json::Value`, taken as a `JsonValue`,
/// or the error's message; named by `json_parse`.
#[verifier::external_body]
pub(crate) fn parse_json(text: &str) -> (r: Result<JsonValue, String>)
    ensures
        match r {
            Ok(v) => json_parse(text@) == Ok::<JsonValue, Seq<char>>(v),
            Err(m) => json_parse(text@) == Err::<JsonValue, Seq<char>>(m@),
        },
{
    match serde_json::from_str::<serde_json::Value>(text) {
        Ok(v) => Ok(from_serde(&v)),
        Err(e) => Err(e.to_string()),
    }
}

/// `serde_json::from_slice` into a `serde_json::Value`, taken as a
/// `JsonValue`; named by `json_from_bytes`.
#[verifier::external_body]
pub(crate) fn parse_json_bytes(bytes: &[u8]) -> (r: Option<JsonValue>)
    ensures r == json_from_bytes(bytes@),
{
    let v: serde_json::Value = serde_json::from_slice(bytes).ok()?;
    Some(from_serde(&v))
}

/// `serde_json::to_string_pretty` of the value as a `serde_json::Value`. Its
/// documentation gives two causes of failure, a `Serialize` impl that fails
/// and a map with keys that are not strings; `serde_json::Value` has neither,
/// so the text is always there; named by `json_pretty`.
#[verifier::external_body]
pub(crate) fn write_json_pretty(v: &JsonValue) -> (r: String)
    ensures r@ == json_pretty(*v),
{
    serde_json::to_string_pretty(&to_serde(v)).unwrap_or_default()
}

/// `serde_json::to_string` of the value as a `serde_json::Value`; it cannot
/// fail, for the reasons given at `write_json_pretty`; named by `json_compact`.
#[verifier::external_body]
pub(crate) fn write_json(v: &JsonValue) -> (r: String)
    ensures r@ == json_compact(*v),
{
    serde_json::to_string(&to_serde(v)).unwrap_or_default()
}

/// The member `key` of an object's members: the first with that key.
pub fn field<'a>(fs: &'a Vec<(String, JsonValue)>, key: &str) -> (r: Option<&'a JsonValue>)
    ensures
        match r {
            Some(x) => field_of(fs@, key@) == Some(*x),
            None => field_of(fs@, key@) is None,
        },
{
    let mut i: usize = 0;
    assert(fs@.subrange(0, fs@.len() as int) =~= fs@);
    while i < fs.len()
        invariant
            i <= fs@.len(),
            field_of(fs@, key@) == field_of(fs@.subrange(i as int, fs@.len() as int), key@),
        decreases fs.len() - i,
    {
        let ghost rest = fs@.subrange(i as int, fs@.len() as int);
        assert(rest.drop_first() =~= fs@.subrange(i + 1, fs@.len() as int));
        if str_eq(fs[i].0.as_str(), key) {
            return Some(&fs[i].1);
        }
        i = i + 1;
    }
    None
}

/// The member `key` of a value: none unless it is an object with that member.
pub fn get_member<'a>(v: &'a JsonValue, key: &str) -> (r: Option<&'a JsonValue>)
    ensures
        match r {
            Some(x) => get(*v, key@) == Some(*x),
            None => get(*v, key@) is None,
        },
{
    match v {
        JsonValue::Object(fs) => field(fs, key),
        _ => None,
    }
}

/// The member `key` of a value, if there is a value.
pub fn get_member_in<'a>(o: Option<&'a JsonValue>, key: &str) -> (r: Option<&'a JsonValue>)
    ensures
        match o {
            Some(v) => match r {
                Some(x) => get(*v, key@) == Some(*x),
                None => get(*v, key@) is None,
            },
            None => r is None,
        },
{
    match o {
        Some(v) => get_member(v, key),
        None => None,
    }
}

/// The text of a value that is a string.
pub fn text_of(o: Option<&JsonValue>) -> (r: Option<String>)
    ensures
        opt_chars(r) == (match o {
            Some(x) => text_at(Some(*x)),
            None => None,
        }),
{
    match o {
        Some(JsonValue::Str(s)) => Some(s.clone()),
        _ => None,
    }
}

} // verus!
