//! The decisions the handle to the language client takes: the IDs of the
//! requests it sends, whether a message may be sent before initialization,
//! and the shape of the messages it builds.

use vstd::prelude::*;

use crate::jsonrpc::params::json_array;
use crate::jsonrpc::{not_initialized_error, ErrorCode, RpcError};

verus! {

/// The request IDs handed out by a client, counting up from zero and
/// wrapping around after `u64::MAX` as an atomic counter does.
pub struct RequestIds {
    next: u64,
}

impl RequestIds {
    /// The ID that the next request gets.
    pub closed spec fn upcoming(&self) -> u64 {
        self.next
    }

    /// A counter that starts at zero.
    pub fn new() -> (c: Self)
        ensures
            c.upcoming() == 0,
    {
        RequestIds { next: 0 }
    }

    /// Hands out the next request ID.
    pub fn next_id(&mut self) -> (id: u64)
        ensures
            id == old(self).upcoming(),
            final(self).upcoming() == (if id == u64::MAX {
                0
            } else {
                (id + 1) as u64
            }),
    {
        let id = self.next;
        self.next = self.next.wrapping_add(1);
        id
    }
}

/// Two IDs handed out one after the other differ, and IDs count up until
/// the counter wraps around.
pub proof fn lemma_ids_increase(first: u64, second: u64)
    requires
        first < u64::MAX,
        second == (first + 1) as u64,
    ensures
        first < second,
{
}

/// Whether a message that needs the server to be initialized may be sent.
pub fn may_send(initialized: bool) -> (b: bool)
    ensures
        b == initialized,
{
    initialized
}

/// A request sent to the client: an ID is always taken, and before the
/// server is initialized the request is not sent and fails with the
/// "server not initialized" error.
pub fn start_request(initialized: bool, ids: &mut RequestIds) -> (r: Result<u64, RpcError>)
    ensures
        final(ids).upcoming() == (if old(ids).upcoming() == u64::MAX {
            0
        } else {
            (old(ids).upcoming() + 1) as u64
        }),
        initialized ==> r == Ok::<u64, RpcError>(old(ids).upcoming()),
        !initialized ==> (r matches Err(e) && e.is_not_initialized()),
{
    let id = ids.next_id();
    if initialized {
        Ok(id)
    } else {
        Err(not_initialized_error())
    }
}

/// The result of a request sent to the client, from the client's answer and
/// what reading the expected result type out of it gave (the value, or the
/// reader's message): an error answer is that error; a result that does not
/// have the expected type is a parse error with the reader's message.
pub fn request_result<R>(answer: Result<Result<R, String>, RpcError>) -> (r: Result<R, RpcError>)
    ensures
        match answer {
            Ok(Ok(v)) => r == Ok::<R, RpcError>(v),
            Ok(Err(m)) => r matches Err(e) && e.code == ErrorCode::ParseError && e.message == m
                && e.data is None,
            Err(e) => r == Err::<R, RpcError>(e),
        },
{
    match answer {
        Ok(Ok(v)) => Ok(v),
        Ok(Err(m)) => Err(RpcError { code: ErrorCode::ParseError, message: m, data: None }),
        Err(e) => Err(e),
    }
}

/// The failure of a request that could not be handed to the transport: an
/// internal error.
pub fn send_failure() -> (e: RpcError)
    ensures
        e.is_standard(ErrorCode::InternalError),
{
    RpcError::internal_error()
}

/// The kinds of JSON value.
#[derive(Debug, PartialEq, Eq, Structural, Clone, Copy)]
pub enum JsonShape {
    Null,
    Bool,
    Number,
    String,
    Array,
    Object,
}

/// The variant of a JSON value (what `Value::is_null`, `is_array`,
/// `is_object` and the other `is_*` methods tell apart).
pub uninterp spec fn json_shape_of(v: serde_json::Value) -> JsonShape;

/// The variant of a JSON value.
#[verifier::external_body]
fn json_shape(v: &serde_json::Value) -> (s: JsonShape)
    ensures
        s == json_shape_of(*v),
{
    match v {
        serde_json::Value::Null => JsonShape::Null,
        serde_json::Value::Bool(_) => JsonShape::Bool,
        serde_json::Value::Number(_) => JsonShape::Number,
        serde_json::Value::String(_) => JsonShape::String,
        serde_json::Value::Array(_) => JsonShape::Array,
        serde_json::Value::Object(_) => JsonShape::Object,
    }
}

/// The array holding `data` alone.
pub open spec fn singleton_array(data: serde_json::Value) -> serde_json::Value {
    crate::jsonrpc::params::json_array_of(seq![data])
}

/// An array holding `data` alone.
fn wrap_in_array(data: serde_json::Value) -> (v: serde_json::Value)
    ensures
        v == singleton_array(data),
        json_shape_of(v) == JsonShape::Array,
{
    let items = vec![data];
    assert(items@ =~= seq![data]);
    json_array(items)
}

/// Whether the client wraps telemetry data of this kind in an array: the
/// `params` of a notification must be an array or an object, and `null`
/// stands for no parameters.
pub open spec fn telemetry_wraps_spec(shape: JsonShape) -> bool {
    !(shape == JsonShape::Null || shape == JsonShape::Array || shape == JsonShape::Object)
}

/// Whether the client wraps telemetry data of this kind in an array (see
/// [`telemetry_wraps_spec`]).
pub fn telemetry_wraps(shape: JsonShape) -> (b: bool)
    ensures
        b == telemetry_wraps_spec(shape),
{
    !(shape == JsonShape::Null || shape == JsonShape::Array || shape == JsonShape::Object)
}

/// Whether the printer wraps telemetry data of this kind in an array: it
/// sends arrays and objects as they are and wraps everything else, `null`
/// included.
pub open spec fn printer_telemetry_wraps_spec(shape: JsonShape) -> bool {
    !(shape == JsonShape::Array || shape == JsonShape::Object)
}

/// Whether the printer wraps telemetry data of this kind in an array (see
/// [`printer_telemetry_wraps_spec`]).
pub fn printer_telemetry_wraps(shape: JsonShape) -> (b: bool)
    ensures
        b == printer_telemetry_wraps_spec(shape),
{
    !(shape == JsonShape::Array || shape == JsonShape::Object)
}

/// The `params` of a telemetry notification sent by the client for `data`
/// of kind `shape`: the data itself, or, when `telemetry_wraps`, an array
/// holding it.
pub fn telemetry_params_for(data: serde_json::Value, shape: JsonShape) -> (p: serde_json::Value)
    ensures
        telemetry_wraps_spec(shape) ==> json_shape_of(p) == JsonShape::Array,
        p == (if telemetry_wraps_spec(shape) {
            singleton_array(data)
        } else {
            data
        }),
{
    if telemetry_wraps(shape) {
        wrap_in_array(data)
    } else {
        data
    }
}


/// The `params` of the telemetry notification that the client sends for
/// `data`.
pub fn telemetry_params(data: serde_json::Value) -> (p: serde_json::Value)
    ensures
        json_shape_of(p) == JsonShape::Null || json_shape_of(p) == JsonShape::Array || json_shape_of(p)
            == JsonShape::Object,
        p == (if telemetry_wraps_spec(json_shape_of(data)) {
            singleton_array(data)
        } else {
            data
        }),
{
    let shape = json_shape(&data);
    telemetry_params_for(data, shape)
}

/// The `params` of the telemetry notification that the printer sends for
/// `data`.
pub fn printer_telemetry_params(data: serde_json::Value) -> (p: serde_json::Value)
    ensures
        json_shape_of(p) == JsonShape::Array || json_shape_of(p) == JsonShape::Object,
        p == (if printer_telemetry_wraps_spec(json_shape_of(data)) {
            singleton_array(data)
        } else {
            data
        }),
{
    let shape = json_shape(&data);
    if printer_telemetry_wraps(shape) {
        wrap_in_array(data)
    } else {
        data
    }
}

/// The client wraps in an array exactly the telemetry data that could not
/// be a notification's `params` as it is: booleans, numbers and strings;
/// `null`, arrays and objects are sent unchanged. The printer wraps all but
/// arrays and objects, `null` included.
pub proof fn lemma_telemetry_wrapping(shape: JsonShape)
    ensures
        telemetry_wraps_spec(shape) <==> (shape == JsonShape::Bool || shape == JsonShape::Number
            || shape == JsonShape::String),
        printer_telemetry_wraps_spec(shape) <==> (shape == JsonShape::Null || shape == JsonShape::Bool
            || shape == JsonShape::Number || shape == JsonShape::String),
{
}

} // verus!
