//! Parameters sent with an incoming JSON-RPC request.

use vstd::prelude::*;

use crate::client::JsonShape;

verus! {

#[verifier::external_type_specification]
#[verifier::external_body]
#[verifier::reject_recursive_types(K)]
#[verifier::reject_recursive_types(V)]
pub struct ExJsonObject<K, V>(serde_json::Map<K, V>);

/// Parameters sent with an incoming JSON-RPC request.
#[derive(Debug, PartialEq)]
pub enum Params {
    /// Represents a by-position `"params"` value.
    Array(Vec<serde_json::Value>),
    /// Represents a by-name `"params"` value.
    Object(serde_json::Map<String, serde_json::Value>),
}

/// A JSON value taken apart by its kind.
pub enum JsonParts {
    Array(Vec<serde_json::Value>),
    Object(serde_json::Map<String, serde_json::Value>),
    /// `null`, a boolean, a number or a string.
    Scalar(serde_json::Value),
}

/// `Value::Array`: the JSON array holding `items`, in order.
pub uninterp spec fn json_array_of(items: Seq<serde_json::Value>) -> serde_json::Value;

/// `Value::Object`: the JSON object holding `entries`.
pub uninterp spec fn json_object_of(entries: serde_json::Map<String, serde_json::Value>) -> serde_json::Value;

/// Takes a JSON value apart by its variant, moving the array or the object
/// out of it. The contract states that an array or an object is handed out
/// as what the value was built from (and a value built as an array of some
/// items, or an object of some entries, is handed out as exactly those), and
/// that any other value is handed back whole.
#[verifier::external_body]
fn json_parts(v: serde_json::Value) -> (r: JsonParts)
    ensures
        forall|items: Seq<serde_json::Value>|
            #![trigger json_array_of(items)]
            v == json_array_of(items) ==> r is Array && r->Array_0@ == items,
        (forall|entries: serde_json::Map<String, serde_json::Value>|
            #![trigger json_object_of(entries)]
            v == json_object_of(entries) ==> r is Object && r->Object_0 == entries),
        match r {
            JsonParts::Array(a) => crate::client::json_shape_of(v) == JsonShape::Array && v == json_array_of(a@),
            JsonParts::Object(o) => crate::client::json_shape_of(v) == JsonShape::Object && v == json_object_of(o),
            JsonParts::Scalar(x) => x == v && crate::client::json_shape_of(v) != JsonShape::Array && crate::client::json_shape_of(v)
                != JsonShape::Object,
        },

{
    match v {
        serde_json::Value::Array(a) => JsonParts::Array(a),
        serde_json::Value::Object(o) => JsonParts::Object(o),
        other => JsonParts::Scalar(other),
    }
}

/// `serde::de::Error::custom` for `serde_json::Error`, with the message.
/// Nothing is stated of the error.
#[verifier::external_body]
fn json_custom_error(message: &str) -> serde_json::Error {
    <serde_json::Error as serde::de::Error>::custom(message)
}

/// `Value::Array`: the array holding the items of `a`.
#[verifier::external_body]
pub(crate) fn json_array(a: Vec<serde_json::Value>) -> (v: serde_json::Value)
    ensures
        v == json_array_of(a@),
        crate::client::json_shape_of(v) == JsonShape::Array,
{
    serde_json::Value::Array(a)
}

/// `Value::Object`: the object holding the entries of `o`.
#[verifier::external_body]
fn json_object(o: serde_json::Map<String, serde_json::Value>) -> (v: serde_json::Value)
    ensures
        v == json_object_of(o),
        crate::client::json_shape_of(v) == JsonShape::Object,
{
    serde_json::Value::Object(o)
}

/// `Clone` of a JSON object, which copies its entries: an equal object.
pub assume_specification[ <serde_json::Map<String, serde_json::Value> as std::clone::Clone>::clone ](
    m: &serde_json::Map<String, serde_json::Value>,
) -> (r: serde_json::Map<String, serde_json::Value>)
    ensures
        r == *m,
;

/// The JSON value of the parameters: the array or the object that they hold.
pub open spec fn params_value(p: Params) -> serde_json::Value {
    match p {
        Params::Array(a) => json_array_of(a@),
        Params::Object(o) => json_object_of(o),
    }
}

impl Params {
    /// The parameters made of a JSON value taken apart: an array or an
    /// object becomes by-position or by-name parameters; any other value is
    /// an error, "expected `params` to be an array or object".
    pub fn from_parts(parts: JsonParts) -> (r: Result<Params, serde_json::Error>)
        ensures
            match parts {
                JsonParts::Array(a) => r == Ok::<Params, serde_json::Error>(Params::Array(a)),
                JsonParts::Object(o) => r == Ok::<Params, serde_json::Error>(Params::Object(o)),
                JsonParts::Scalar(_) => r is Err,
            },
    {
        match parts {
            JsonParts::Array(a) => Ok(Params::Array(a)),
            JsonParts::Object(o) => Ok(Params::Object(o)),
            JsonParts::Scalar(_) => Err(json_custom_error("expected `params` to be an array or object")),
        }
    }

    /// The parameters held by a JSON value: its array or object, or an
    /// error for any other value.
    pub fn try_from_value(v: serde_json::Value) -> (r: Result<Params, serde_json::Error>)
        ensures
            r is Ok <==> (crate::client::json_shape_of(v) == JsonShape::Array || crate::client::json_shape_of(v)
                == JsonShape::Object),
            r matches Ok(p) ==> params_value(p) == v,
            forall|items: Seq<serde_json::Value>|
                v == #[trigger] json_array_of(items) ==> (r matches Ok(Params::Array(a)) && a@
                    == items),
            (forall|entries: serde_json::Map<String, serde_json::Value>|
                v == #[trigger] json_object_of(entries) ==> (r matches Ok(Params::Object(o)) && o
                    == entries)),
    {
        Params::from_parts(json_parts(v))
    }

    /// The JSON text of the parameters (their `Display` form): the text of
    /// the array or the object that they hold, as `serde_json::to_string`
    /// writes it; its error when that fails.
    pub fn to_text(&self) -> (r: Result<String, serde_json::Error>)
        ensures
            match crate::codec::json_text_of(params_value(*self)) {
                Some(t) => r matches Ok(s) && s@ == t,
                None => r is Err,
            },
    {
        let value = match self {
            Params::Array(a) => {
                let items = a.clone();
                proof {
                    assert forall|i: int| 0 <= i < a@.len() implies items@[i] == a@[i] by {
                        assert(cloned::<serde_json::Value>(a@[i], items@[i]));
                    }
                    assert(items@ =~= a@);
                }
                json_array(items)
            },
            Params::Object(o) => json_object(o.clone()),
        };
        crate::codec::json_value_to_string(&value)
    }

    /// The JSON value of the parameters: the array or the object.
    pub fn into_value(self) -> (v: serde_json::Value)
        ensures
            v == params_value(self),
    {
        match self {
            Params::Array(a) => json_array(a),
            Params::Object(o) => json_object(o),
        }
    }
}

} // verus!
