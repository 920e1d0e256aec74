//! A JSON value the library can reason about, and the bridge to `serde_json` for reading and
//! writing JSON text.

use vstd::prelude::*;
use vstd::utf8::*;
use crate::text::{chars_of, parse_i64, parse_i64_spec};
use serde_json::{Number, Value};

verus! {

broadcast use vstd::string::group_string_axioms;

/// The mathematical model of a JSON value.
pub enum JsonValue {
    Null,
    Bool(bool),
    /// A number, held as its JSON literal text.
    Number(Seq<char>),
    Str(Seq<char>),
    Array(Seq<JsonValue>),
    /// Object members in iteration order.
    Object(Seq<(Seq<char>, JsonValue)>),
}

/// A JSON value.
#[derive(Debug)]
pub enum Json {
    Null,
    Bool(bool),
    /// A number, held as its JSON literal text.
    Number(String),
    Str(String),
    Array(Vec<Json>),
    /// Object members in iteration order.
    Object(Vec<(String, Json)>),
}

/// The models of a sequence of values.
pub open spec fn models(items: Seq<Json>) -> Seq<JsonValue>
    decreases items,
{
    if items.len() == 0 {
        Seq::empty()
    } else {
        models(items.drop_last()).push(items.last().model())
    }
}

/// The models of a sequence of object members.
pub open spec fn field_models(fields: Seq<(String, Json)>) -> Seq<(Seq<char>, JsonValue)>
    decreases fields,
{
    if fields.len() == 0 {
        Seq::empty()
    } else {
        field_models(fields.drop_last()).push((fields.last().0@, fields.last().1.model()))
    }
}

impl Json {
    /// The mathematical value this value stands for.
    pub open spec fn model(self) -> JsonValue
        decreases self,
    {
        match self {
            Json::Null => JsonValue::Null,
            Json::Bool(b) => JsonValue::Bool(b),
            Json::Number(n) => JsonValue::Number(n@),
            Json::Str(s) => JsonValue::Str(s@),
            Json::Array(items) => JsonValue::Array(models(items@)),
            Json::Object(fields) => JsonValue::Object(field_models(fields@)),
        }
    }
}

/// The models of a sequence are taken element by element.
pub broadcast proof fn lemma_models(items: Seq<Json>)
    ensures
        #[trigger] models(items).len() == items.len(),
        forall|i: int| 0 <= i < items.len() ==> #[trigger] models(items)[i] == items[i].model(),
    decreases items.len(),
{
    if items.len() > 0 {
        lemma_models(items.drop_last());
    }
}

/// The models of object members are taken member by member.
pub broadcast proof fn lemma_field_models(fields: Seq<(String, Json)>)
    ensures
        #[trigger] field_models(fields).len() == fields.len(),
        forall|i: int|
            0 <= i < fields.len() ==> #[trigger] field_models(fields)[i] == (
                fields[i].0@,
                fields[i].1.model(),
            ),
    decreases fields.len(),
{
    if fields.len() > 0 {
        lemma_field_models(fields.drop_last());
    }
}

pub broadcast group group_json_model {
    lemma_models,
    lemma_field_models,
}

// ---------------------------------------------------------------------------------------------
// reading values

/// The value of the first member named `key`.
pub open spec fn field_get(fields: Seq<(Seq<char>, JsonValue)>, key: Seq<char>) -> Option<JsonValue>
    decreases fields.len(),
{
    if fields.len() == 0 {
        None
    } else if fields[0].0 == key {
        Some(fields[0].1)
    } else {
        field_get(fields.drop_first(), key)
    }
}

/// `Value::get` with a string key: the member of an object, `None` for anything else.
pub open spec fn json_get(v: JsonValue, key: Seq<char>) -> Option<JsonValue> {
    match v {
        JsonValue::Object(fields) => field_get(fields, key),
        _ => None,
    }
}

/// `Value::as_str`.
pub open spec fn json_as_str(v: JsonValue) -> Option<Seq<char>> {
    match v {
        JsonValue::Str(s) => Some(s),
        _ => None,
    }
}

/// `Value::as_bool`.
pub open spec fn json_as_bool(v: JsonValue) -> Option<bool> {
    match v {
        JsonValue::Bool(b) => Some(b),
        _ => None,
    }
}

/// `Value::as_i64`: a number whose literal is an integer that fits in an `i64`.
pub open spec fn json_as_i64(v: JsonValue) -> Option<i64> {
    match v {
        JsonValue::Number(n) => parse_i64_spec(n),
        _ => None,
    }
}

/// The string member `key` of `v`, as `v.get(key).and_then(Value::as_str)` gives it.
pub open spec fn str_field(v: JsonValue, key: Seq<char>) -> Option<Seq<char>> {
    match json_get(v, key) {
        Some(x) => json_as_str(x),
        None => None,
    }
}

/// The boolean member `key` of `v`, as `v.get(key).and_then(Value::as_bool)` gives it.
pub open spec fn bool_field(v: JsonValue, key: Seq<char>) -> Option<bool> {
    match json_get(v, key) {
        Some(x) => json_as_bool(x),
        None => None,
    }
}

/// The integer member `key` of `v`, as `v.get(key).and_then(Value::as_i64)` gives it.
pub open spec fn i64_field(v: JsonValue, key: Seq<char>) -> Option<i64> {
    match json_get(v, key) {
        Some(x) => json_as_i64(x),
        None => None,
    }
}

impl Json {
    /// The member `key` of an object; `None` for a value that is not an object.
    #[verifier::loop_isolation(false)]
    pub fn get(&self, key: &str) -> (r: Option<&Json>)
        ensures
            match r {
                Some(x) => json_get(self.model(), key@) == Some(x.model()),
                None => json_get(self.model(), key@) is None,
            },
    {
        match self {
            Json::Object(fields) => {
                proof {
                    lemma_field_models(fields@);
                    assert(field_models(fields@).skip(0) == field_models(fields@));
                }
                let mut i: usize = 0;
                while i < fields.len()
                    invariant
                        i <= fields@.len(),
                        field_models(fields@).len() == fields@.len(),
                        forall|j: int|
                            0 <= j < fields@.len() ==> field_models(fields@)[j] == (
                                #[trigger] fields@[j].0@,
                                fields@[j].1.model(),
                            ),
                        field_get(field_models(fields@), key@) == field_get(
                            field_models(fields@).skip(i as int),
                            key@,
                        ),
                    decreases fields.len() - i,
                {
                    let ghost rest = field_models(fields@).skip(i as int);
                    assert(rest[0] == field_models(fields@)[i as int]);
                    assert(rest.drop_first() == field_models(fields@).skip(i + 1));
                    if eq_str(fields[i].0.as_str(), key) {
                        assert(rest.len() > 0);
                        assert(field_get(rest, key@) == Some(fields@[i as int].1.model()));
                        return Some(&fields[i].1);
                    }
                    i += 1;
                }
                None
            },
            _ => None,
        }
    }

    /// The text of a string value.
    pub fn as_str(&self) -> (r: Option<&String>)
        ensures
            match r {
                Some(s) => json_as_str(self.model()) == Some(s@),
                None => json_as_str(self.model()) is None,
            },
    {
        match self {
            Json::Str(s) => Some(s),
            _ => None,
        }
    }

    /// The value of a boolean.
    pub fn as_bool(&self) -> (r: Option<bool>)
        ensures
            r == json_as_bool(self.model()),
    {
        match self {
            Json::Bool(b) => Some(*b),
            _ => None,
        }
    }

    /// The value of an integer number that fits in an `i64`.
    pub fn as_i64(&self) -> (r: Option<i64>)
        ensures
            r == json_as_i64(self.model()),
    {
        match self {
            Json::Number(n) => parse_i64(n.as_str()),
            _ => None,
        }
    }

    /// A string value.
    pub fn text(s: &str) -> (r: Json)
        ensures
            r.model() == JsonValue::Str(s@),
    {
        Json::Str(String::from_str(s))
    }
}

/// Whether two strings are equal.
pub fn eq_str(a: &str, b: &str) -> (r: bool)
    ensures
        r == (a@ == b@),
{
    let x = chars_of(a);
    let y = chars_of(b);
    if x.len() != y.len() {
        return false;
    }
    for i in 0..x.len()
        invariant
            x@ == a@,
            y@ == b@,
            x@.len() == y@.len(),
            forall|j: int| 0 <= j < i ==> x@[j] == y@[j],
    {
        if x[i] != y[i] {
            return false;
        }
    }
    assert(x@ =~= y@);
    true
}

// ---------------------------------------------------------------------------------------------
// reading JSON text with serde_json

/// `serde_json::Value`, which the library only converts from and to.
#[verifier::external_type_specification]
#[verifier::external_body]
pub struct ExSerdeValue(Value);

/// What `serde_json::from_str::<Value>` makes of a text, as the library's model;
/// `None` where it reports an error.
pub uninterp spec fn parsed_json(text: Seq<char>) -> Option<JsonValue>;

/// What `serde_json::from_slice::<Value>` makes of bytes, as the library's model;
/// `None` where it reports an error.
pub uninterp spec fn parsed_json_bytes(bytes: Seq<u8>) -> Option<JsonValue>;

/// Carries a parsed `serde_json::Value` over into the library's own type, member for member;
/// a number keeps the text that its `Display` writes.
#[verifier::external_body]
fn from_serde(v: Value) -> Json {
    match v {
        Value::Null => Json::Null,
        Value::Bool(b) => Json::Bool(b),
        Value::Number(n) => Json::Number(n.to_string()),
        Value::String(s) => Json::Str(s),
        Value::Array(a) => Json::Array(a.into_iter().map(from_serde).collect()),
        Value::Object(m) => Json::Object(m.into_iter().map(|(k, x)| (k, from_serde(x))).collect()),
    }
}

/// `serde_json::from_str::<Value>`: the parsed value, or `None` on a syntax error. The
/// contract names the result and claims no more of it than that it depends on the text alone.
#[verifier::external_body]
pub(crate) fn parse_json(text: &str) -> (r: Option<Json>)
    ensures
        match r {
            Some(j) => parsed_json(text@) == Some(j.model()),
            None => parsed_json(text@) is None,
        },
{
    match serde_json::from_str::<Value>(text) {
        Ok(v) => Some(from_serde(v)),
        Err(_) => None,
    }
}

/// `serde_json::from_slice::<Value>`: the parsed value, or `None` on an error. The contract
/// names the result and claims no more of it than that it depends on the bytes alone.
#[verifier::external_body]
pub(crate) fn parse_json_bytes(bytes: &[u8]) -> (r: Option<Json>)
    ensures
        match r {
            Some(j) => parsed_json_bytes(bytes@) == Some(j.model()),
            None => parsed_json_bytes(bytes@) is None,
        },
{
    match serde_json::from_slice::<Value>(bytes) {
        Ok(v) => Some(from_serde(v)),
        Err(_) => None,
    }
}

// ---------------------------------------------------------------------------------------------
// writing JSON text with serde_json

/// What `serde_json::to_string` writes for a value: compact JSON text, object members in
/// key order.
pub uninterp spec fn json_string(v: JsonValue) -> Seq<char>;

/// Carries a value over into a `serde_json::Value`, member for member; a number is read
/// back from its literal text.
#[verifier::external_body]
fn to_serde(v: &Json) -> Value {
    match v {
        Json::Null => Value::Null,
        Json::Bool(b) => Value::Bool(*b),
        Json::Number(n) => n.parse::<Number>().map(Value::Number).unwrap_or(Value::Null),
        Json::Str(s) => Value::String(s.clone()),
        Json::Array(a) => Value::Array(a.iter().map(to_serde).collect()),
        Json::Object(o) => Value::Object(o.iter().map(|(k, x)| (k.clone(), to_serde(x))).collect()),
    }
}

impl Json {
    /// `serde_json::to_string` of this value. The contract names the text, which depends on
    /// the value alone.
    #[verifier::external_body]
    pub(crate) fn to_json_string(&self) -> (r: String)
        ensures
            r@ == json_string(self.model()),
    {
        serde_json::to_string(&to_serde(self)).unwrap_or_default()
    }
}

// ---------------------------------------------------------------------------------------------
// YAML text with serde_yaml

/// What `serde_yaml::from_str::<serde_json::Value>` makes of a text, as the library's model;
/// `None` where it reports an error.
pub uninterp spec fn parsed_yaml(text: Seq<char>) -> Option<JsonValue>;

/// `serde_yaml::from_str` into a `serde_json::Value`: the parsed value, or `None` on an
/// error. The contract names the result and claims no more of it than that it depends on
/// the text alone.
#[verifier::external_body]
pub(crate) fn parse_yaml(text: &str) -> (r: Option<Json>)
    ensures
        match r {
            Some(j) => parsed_yaml(text@) == Some(j.model()),
            None => parsed_yaml(text@) is None,
        },
{
    match serde_yaml::from_str::<Value>(text) {
        Ok(v) => Some(from_serde(v)),
        Err(_) => None,
    }
}

/// What `serde_yaml::to_string` writes for a value (block-style YAML, object members in key
/// order); `None` where it reports an error.
pub uninterp spec fn yaml_string(v: JsonValue) -> Option<Seq<char>>;

impl Json {
    /// `serde_yaml::to_string` of this value, or `None` on an error. The contract names the
    /// text, which depends on the value alone.
    #[verifier::external_body]
    pub(crate) fn to_yaml_string(&self) -> (r: Option<String>)
        ensures
            match r {
                Some(t) => yaml_string(self.model()) == Some(t@),
                None => yaml_string(self.model()) is None,
            },
    {
        serde_yaml::to_string(&to_serde(self)).ok()
    }
}

// ---------------------------------------------------------------------------------------------
// UTF-8

/// What `String::from_utf8_lossy` makes of bytes.
pub uninterp spec fn lossy_text(bytes: Seq<u8>) -> Seq<char>;

/// `String::from_utf8_lossy`: decodes UTF-8, putting U+FFFD in place of invalid sequences.
/// The contract names the result; of it, it states only that valid UTF-8 decodes as such.
#[verifier::external_body]
pub(crate) fn utf8_lossy(bytes: &[u8]) -> (r: String)
    ensures
        r@ == lossy_text(bytes@),
        valid_utf8(bytes@) ==> r@ == decode_utf8(bytes@),
{
    String::from_utf8_lossy(bytes).into_owned()
}

/// `String::from_utf8`: the decoded text when the bytes are valid UTF-8, else `None`.
#[verifier::external_body]
pub(crate) fn utf8_string(bytes: Vec<u8>) -> (r: Option<String>)
    ensures
        r is Some <==> valid_utf8(bytes@),
        r matches Some(s) ==> s@ == decode_utf8(bytes@),
{
    match String::from_utf8(bytes) {
        Ok(s) => Some(s),
        Err(_) => None,
    }
}

} // verus!
