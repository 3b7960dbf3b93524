//! A plain representation of a JSON document, and the parse of a raw
//! response body into it.

use vstd::prelude::*;

verus! {

/// A JSON value held as plain data. A number keeps its spelling as the
/// parser renders it. Object fields keep the order in which they were
/// produced.
#[derive(Debug)]
pub enum JsonValue {
    Null,
    Bool(bool),
    Num(String),
    Str(String),
    Arr(Vec<JsonValue>),
    Obj(Vec<(String, JsonValue)>),
}

/// The value of the first field of `fields` named `key`, if any.
pub open spec fn fields_get(fields: Seq<(String, JsonValue)>, key: Seq<char>) -> Option<
    JsonValue,
>
    decreases fields,
{
    if fields.len() == 0 {
        None
    } else if fields[0].0@ == key {
        Some(fields[0].1)
    } else {
        fields_get(fields.drop_first(), key)
    }
}

impl JsonValue {
    /// The value at `key`, when this node is an object with such a field;
    /// the first field wins when a key repeats.
    pub open spec fn spec_get(self, key: Seq<char>) -> Option<JsonValue> {
        match self {
            JsonValue::Obj(fields) => fields_get(fields@, key),
            _ => None,
        }
    }

    /// The string at `key`, when this node is an object whose field at
    /// `key` holds a string.
    pub open spec fn spec_get_str(self, key: Seq<char>) -> Option<Seq<char>> {
        match self.spec_get(key) {
            Some(JsonValue::Str(s)) => Some(s@),
            _ => None,
        }
    }

    /// Whether this node is an object with a field named `key`.
    pub open spec fn spec_has_key(self, key: Seq<char>) -> bool {
        self.spec_get(key) is Some
    }

    /// Looks up the first field named `key` of this object node.
    pub fn get<'a>(&'a self, key: &str) -> (r: Option<&'a JsonValue>)
        ensures
            match r {
                Some(v) => self.spec_get(key@) == Some(*v),
                None => self.spec_get(key@) is None,
            },
    {
        match self {
            JsonValue::Obj(fields) => {
                let n = fields.len();
                assert(fields@.skip(0) =~= fields@);
                for i in 0..n
                    invariant
                        n == fields.len(),
                        self.spec_get(key@) == fields_get(fields@, key@),
                        fields_get(fields@, key@) == fields_get(fields@.skip(i as int), key@),
                {
                    assert(fields@.skip(i as int)[0] == fields@[i as int]);
                    assert(fields@.skip(i as int).drop_first() =~= fields@.skip(i + 1));
                    if str_eq(fields[i].0.as_str(), key) {
                        return Some(&fields[i].1);
                    }
                }
                assert(fields@.skip(n as int) =~= Seq::<(String, JsonValue)>::empty());
                None
            },
            _ => None,
        }
    }

    /// Looks up the string at `key` of this object node.
    pub fn get_str<'a>(&'a self, key: &str) -> (r: Option<&'a String>)
        ensures
            match r {
                Some(s) => self.spec_get_str(key@) == Some(s@),
                None => self.spec_get_str(key@) is None,
            },
    {
        match self.get(key) {
            Some(JsonValue::Str(s)) => Some(s),
            _ => None,
        }
    }
}

/// Character-for-character string comparison.
pub fn str_eq(a: &str, b: &str) -> (r: bool)
    ensures
        r == (a@ == b@),
{
    let an = a.unicode_len();
    let bn = b.unicode_len();
    if an != bn {
        assert(a@ != b@);
        return false;
    }
    for i in 0..an
        invariant
            an == a@.len(),
            an == b@.len(),
            forall|j: int| 0 <= j < i ==> a@[j] == b@[j],
    {
        if a.get_char(i) != b.get_char(i) {
            return false;
        }
    }
    assert(a@ =~= b@);
    true
}

#[verifier::external_type_specification]
#[verifier::external_body]
pub struct ExValue(serde_json::Value);

/// Whether a text parses as a JSON document: a function of the text alone.
pub uninterp spec fn json_parse_ok(s: Seq<char>) -> bool;

/// The tree that a valid JSON document's text parses to: a function of
/// the text alone.
pub uninterp spec fn json_tree_of(s: Seq<char>) -> JsonValue;

/// Relies on serde_json::from_str::<Value>: it returns Ok exactly when
/// the text is a valid JSON document, and the text alone determines the
/// tree, which [`convert_value`] carries over variant for variant.
#[verifier::external_body]
fn parse_value(s: &str) -> (r: Option<JsonValue>)
    ensures
        r is Some == json_parse_ok(s@),
        r matches Some(v) ==> v == json_tree_of(s@),
{
    serde_json::from_str::<serde_json::Value>(s).ok().map(|v| convert_value(&v))
}

/// Converts serde_json's tree into the plain representation, variant for
/// variant; object fields keep serde_json's iteration order.
#[verifier::external_body]
fn convert_value(v: &serde_json::Value) -> JsonValue {
    match v {
        serde_json::Value::Null => JsonValue::Null,
        serde_json::Value::Bool(b) => JsonValue::Bool(*b),
        serde_json::Value::Number(n) => JsonValue::Num(n.to_string()),
        serde_json::Value::String(s) => JsonValue::Str(s.clone()),
        serde_json::Value::Array(a) => JsonValue::Arr(a.iter().map(convert_value).collect()),
        serde_json::Value::Object(o) => JsonValue::Obj(
            o.iter().map(|(k, w)| (k.clone(), convert_value(w))).collect(),
        ),
    }
}

/// Parses a raw response body into a plain JSON tree. Returns a value
/// exactly when the body is valid JSON, and always the tree of that
/// body.
pub fn parse_json(s: &str) -> (r: Option<JsonValue>)
    ensures
        r is Some == json_parse_ok(s@),
        r matches Some(v) ==> v == json_tree_of(s@),
{
    parse_value(s)
}

} // verus!
