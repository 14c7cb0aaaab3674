//! A plain model of JSON data, and the trusted bridge that parses wire text
//! into it.
//!
//! The control protocol carries one JSON object per frame.  The library works
//! on the [`Json`] type below, whose values are plain Rust data that Verus can
//! reason about; only the step from raw text to `Json` is delegated to an
//! outside parser.  JSON numbers in this protocol are always integers, so a
//! number that does not fit an `i64` is modelled as `Null` (and later skipped
//! as a malformed field).

use vstd::prelude::*;

verus! {

/// A parsed JSON value with plain contents.  Object fields keep the order in
/// which the parser handed them over.
#[derive(Debug, PartialEq, Eq)]
pub enum Json {
    Null,
    Bool(bool),
    Int(i64),
    Str(String),
    Arr(Vec<Json>),
    Obj(Vec<(String, Json)>),
}

/// What parsing a JSON text yields: a function of the characters alone.
pub uninterp spec fn json_parse(s: Seq<char>) -> Option<Json>;

/// The value of the first field named `key`, if any.
pub open spec fn spec_obj_get(es: Seq<(String, Json)>, key: Seq<char>) -> Option<Json>
    decreases es.len(),
{
    if es.len() == 0 {
        None
    } else if es[0].0@ == key {
        Some(es[0].1)
    } else {
        spec_obj_get(es.skip(1), key)
    }
}

/// Field lookup on a JSON value: `None` unless it is an object with the field.
pub open spec fn spec_get(j: Json, key: Seq<char>) -> Option<Json> {
    match j {
        Json::Obj(es) => spec_obj_get(es@, key),
        _ => None,
    }
}

impl Json {
    /// The value of the first field named `key`, if this is an object that
    /// has one.
    pub fn get<'a>(&'a self, key: &str) -> (r: Option<&'a Json>)
        ensures
            match r {
                Some(v) => spec_get(*self, key@) == Some(*v),
                None => spec_get(*self, key@) is None,
            },
    {
        match self {
            Json::Obj(es) => obj_get(es, key),
            _ => None,
        }
    }

    /// The boolean carried by this value, if it is one.
    pub fn as_bool(&self) -> (r: Option<bool>)
        ensures
            r == spec_as_bool(*self),
    {
        match self {
            Json::Bool(b) => Some(*b),
            _ => None,
        }
    }

    /// The integer carried by this value, if it is one.
    pub fn as_int(&self) -> (r: Option<i64>)
        ensures
            r == spec_as_int(*self),
    {
        match self {
            Json::Int(n) => Some(*n),
            _ => None,
        }
    }

    /// The string carried by this value, if it is one.
    pub fn as_str<'a>(&'a self) -> (r: Option<&'a String>)
        ensures
            match r {
                Some(s) => spec_as_str(*self) == Some(*s),
                None => spec_as_str(*self) is None,
            },
    {
        match self {
            Json::Str(s) => Some(s),
            _ => None,
        }
    }

    /// The elements of this value, if it is an array.
    pub fn as_arr<'a>(&'a self) -> (r: Option<&'a Vec<Json>>)
        ensures
            match r {
                Some(v) => spec_as_arr(*self) == Some(*v),
                None => spec_as_arr(*self) is None,
            },
    {
        match self {
            Json::Arr(v) => Some(v),
            _ => None,
        }
    }

    /// The fields of this value, if it is an object.
    pub fn as_obj<'a>(&'a self) -> (r: Option<&'a Vec<(String, Json)>>)
        ensures
            match r {
                Some(v) => spec_as_obj(*self) == Some(*v),
                None => spec_as_obj(*self) is None,
            },
    {
        match self {
            Json::Obj(v) => Some(v),
            _ => None,
        }
    }
}

/// The value of the first field named `key` among `es`, if any.
pub fn obj_get<'a>(es: &'a Vec<(String, Json)>, key: &str) -> (r: Option<&'a Json>)
    ensures
        match r {
            Some(v) => spec_obj_get(es@, key@) == Some(*v),
            None => spec_obj_get(es@, key@) is None,
        },
{
    let mut i: usize = 0;
    proof {
        assert(es@.skip(0) =~= es@);
    }
    while i < es.len()
        invariant
            i <= es@.len(),
            spec_obj_get(es@, key@) == spec_obj_get(es@.skip(i as int), key@),
        decreases es@.len() - i,
    {
        proof {
            assert(es@.skip(i as int)[0] == es@[i as int]);
            assert(es@.skip(i as int).skip(1) =~= es@.skip(i as int + 1));
        }
        if crate::text::str_eq(es[i].0.as_str(), key) {
            proof {
                assert(spec_obj_get(es@.skip(i as int), key@) == Some(es@[i as int].1));
            }
            return Some(&es[i].1);
        }
        i = i + 1;
    }
    proof {
        assert(es@.skip(es@.len() as int) =~= Seq::<(String, Json)>::empty());
    }
    None
}

pub open spec fn spec_as_bool(j: Json) -> Option<bool> {
    match j {
        Json::Bool(b) => Some(b),
        _ => None,
    }
}

pub open spec fn spec_as_int(j: Json) -> Option<i64> {
    match j {
        Json::Int(n) => Some(n),
        _ => None,
    }
}

pub open spec fn spec_as_str(j: Json) -> Option<String> {
    match j {
        Json::Str(s) => Some(s),
        _ => None,
    }
}

pub open spec fn spec_as_arr(j: Json) -> Option<Vec<Json>> {
    match j {
        Json::Arr(v) => Some(v),
        _ => None,
    }
}

pub open spec fn spec_as_obj(j: Json) -> Option<Vec<(String, Json)>> {
    match j {
        Json::Obj(v) => Some(v),
        _ => None,
    }
}

/// `serde_json::Value`, declared so that the conversion below can take it.
#[verifier::external_type_specification]
#[verifier::external_body]
pub struct ExValue(serde_json::Value);

/// Relies on the variants of `serde_json::Value` and on
/// `serde_json::Number::as_i64`: rebuilds the parsed document as plain data,
/// arm by arm.  A number that holds no `i64` becomes `Null` (this protocol
/// only carries integers).
#[verifier::external_body]
fn json_from_value(v: serde_json::Value) -> Json {
    match v {
        serde_json::Value::Null => Json::Null,
        serde_json::Value::Bool(b) => Json::Bool(b),
        serde_json::Value::Number(n) => match n.as_i64() {
            Some(i) => Json::Int(i),
            None => Json::Null,
        },
        serde_json::Value::String(s) => Json::Str(s),
        serde_json::Value::Array(a) => Json::Arr(a.into_iter().map(json_from_value).collect()),
        serde_json::Value::Object(o) => Json::Obj(
            o.into_iter().map(|(k, val)| (k, json_from_value(val))).collect(),
        ),
    }
}

/// Relies on `serde_json::from_str::<serde_json::Value>`: parses one JSON
/// text, whose outcome depends on the characters alone; `None` on invalid
/// JSON.  The result is named `json_parse`.
#[verifier::external_body]
pub(crate) fn parse_json(s: &str) -> (r: Option<Json>)
    ensures
        r == json_parse(s@),
{
    match serde_json::from_str::<serde_json::Value>(s) {
        Ok(v) => Some(json_from_value(v)),
        Err(_) => None,
    }
}

} // verus!
