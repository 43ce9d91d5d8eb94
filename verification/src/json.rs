//! A JSON value model holding plain values, the accessors the pet's logic
//! reads frames with, and the parse of JSON text (done by `serde_json`).

use vstd::prelude::*;

use crate::strings::str_eq;

verus! {

/// A parsed JSON value. Numbers keep their textual form (the logic never reads
/// them); an object keeps its members in the order the parser produced them.
#[derive(Debug)]
pub enum Json {
    Null,
    Bool(bool),
    Number(String),
    Str(String),
    Array(Vec<Json>),
    Object(Vec<(String, Json)>),
}

/// The value of the first member of `fields` named `key`.
pub open spec fn lookup_member(fields: Seq<(String, Json)>, key: Seq<char>) -> Option<Json>
    decreases fields.len(),
{
    if fields.len() == 0 {
        None
    } else if fields[0].0@ == key {
        Some(fields[0].1)
    } else {
        lookup_member(fields.drop_first(), key)
    }
}

impl Json {
    /// `value.get(key)`: the member `key` of an object; `None` for other values.
    pub open spec fn spec_get(self, key: Seq<char>) -> Option<Json> {
        match self {
            Json::Object(fields) => lookup_member(fields@, key),
            _ => None,
        }
    }

    /// `value.as_str()`: the characters of a string value.
    pub open spec fn spec_as_str(self) -> Option<Seq<char>> {
        match self {
            Json::Str(s) => Some(s@),
            _ => None,
        }
    }

    /// `value.as_bool()`.
    pub open spec fn spec_as_bool(self) -> Option<bool> {
        match self {
            Json::Bool(b) => Some(b),
            _ => None,
        }
    }

    /// `value.as_array()`: the elements of an array value.
    pub open spec fn spec_as_array(self) -> Option<Seq<Json>> {
        match self {
            Json::Array(a) => Some(a@),
            _ => None,
        }
    }

    /// The member `key` of an object.
    pub fn get(&self, key: &str) -> (r: Option<&Json>)
        ensures
            match r {
                Some(v) => self.spec_get(key@) == Some(*v),
                None => self.spec_get(key@) is None,
            },
    {
        match self {
            Json::Object(fields) => {
                let mut i: usize = 0;
                assert(fields@.skip(0) =~= fields@);
                while i < fields.len()
                    invariant
                        i <= fields.len(),
                        self.spec_get(key@) == lookup_member(fields@, key@),
                        lookup_member(fields@, key@) == lookup_member(fields@.skip(i as int), key@),
                    decreases fields.len() - i,
                {
                    assert(fields@.skip(i as int).drop_first() =~= fields@.skip(i + 1));
                    assert(fields@.skip(i as int)[0] == fields@[i as int]);
                    let name = fields[i].0.as_str();
                    if str_eq(name, key) {
                        assert(fields@.skip(i as int)[0].0@ == key@);
                        assert(lookup_member(fields@.skip(i as int), key@) == Some(fields@[i as int].1));
                        return Some(&fields[i].1);
                    }
                    i = i + 1;
                }
                None
            },
            _ => None,
        }
    }

    /// The characters of a string value.
    pub fn as_str(&self) -> (r: Option<&str>)
        ensures
            match r {
                Some(s) => self.spec_as_str() == Some(s@),
                None => self.spec_as_str() is None,
            },
    {
        match self {
            Json::Str(s) => Some(s.as_str()),
            _ => None,
        }
    }

    /// The value of a boolean.
    pub fn as_bool(&self) -> (r: Option<bool>)
        ensures
            r == self.spec_as_bool(),
    {
        match self {
            Json::Bool(b) => Some(*b),
            _ => None,
        }
    }

    /// The elements of an array.
    pub fn as_array(&self) -> (r: Option<&Vec<Json>>)
        ensures
            match r {
                Some(a) => self.spec_as_array() == Some(a@),
                None => self.spec_as_array() is None,
            },
    {
        match self {
            Json::Array(a) => Some(a),
            _ => None,
        }
    }
}

/// The string member `key` of `v` (`v.get(key).and_then(|x| x.as_str())`).
pub open spec fn str_member(v: Json, key: Seq<char>) -> Option<Seq<char>> {
    match v.spec_get(key) {
        Some(x) => x.spec_as_str(),
        None => None,
    }
}

/// The string member `key` of `v`, if it is present and a string.
pub fn get_str<'a>(v: &'a Json, key: &str) -> (r: Option<&'a str>)
    ensures
        match r {
            Some(s) => str_member(*v, key@) == Some(s@),
            None => str_member(*v, key@) is None,
        },
{
    match v.get(key) {
        Some(x) => x.as_str(),
        None => None,
    }
}

#[verifier::external_type_specification]
#[verifier::external_body]
pub struct ExSerdeJsonValue(serde_json::Value);

/// What `serde_json::from_str::<serde_json::Value>` makes of a text, carried
/// into [`Json`]: `None` when the text is not JSON.
pub uninterp spec fn spec_parse_json(text: Seq<char>) -> Option<Json>;

/// Parses JSON text.
///
/// Trusted: calls `serde_json::from_str::<serde_json::Value>`; its result is a
/// function of the text alone, named `spec_parse_json` (nothing further about
/// it is stated). The value is carried into [`Json`] one variant for one.
#[verifier::external_body]
pub(crate) fn parse_json(text: &str) -> (r: Option<Json>)
    ensures
        r == spec_parse_json(text@),
{
    match serde_json::from_str::<serde_json::Value>(text) {
        Ok(v) => Some(json_of_value(v)),
        Err(_) => None,
    }
}

/// Carries a `serde_json::Value` into [`Json`], variant for variant (numbers by
/// their `Display` text, object members in the map's order). Used only by
/// [`parse_json`] to convert the parser's result.
#[verifier::external_body]
fn json_of_value(v: serde_json::Value) -> Json {
    match v {
        serde_json::Value::Null => Json::Null,
        serde_json::Value::Bool(b) => Json::Bool(b),
        serde_json::Value::Number(n) => Json::Number(n.to_string()),
        serde_json::Value::String(s) => Json::Str(s),
        serde_json::Value::Array(a) => Json::Array(a.into_iter().map(json_of_value).collect()),
        serde_json::Value::Object(m) => Json::Object(
            m.into_iter().map(|(k, x)| (k, json_of_value(x))).collect(),
        ),
    }
}

} // verus!
