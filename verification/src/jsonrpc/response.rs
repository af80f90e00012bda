//! JSON-RPC responses.

use vstd::prelude::*;

use super::{RpcError, Id};

verus! {

/// The body of a response: a result or an error.
#[derive(Debug, PartialEq, Clone)]
enum Kind {
    Success { result: serde_json::Value },
    Failure { error: RpcError },
}

/// A successful or failed JSON-RPC response.
#[derive(Debug, PartialEq, Clone)]
pub struct Response {
    kind: Kind,
    id: Id,
}

impl Response {
    /// The response ID.
    pub closed spec fn id_of(self) -> Id {
        self.id
    }

    /// The body: `Ok` with the result, or `Err` with the error.
    pub closed spec fn body(self) -> Result<serde_json::Value, RpcError> {
        match self.kind {
            Kind::Success { result } => Ok(result),
            Kind::Failure { error } => Err(error),
        }
    }

    /// Creates a new successful response from a response ID and a result.
    pub fn from_ok(id: Id, result: serde_json::Value) -> (r: Self)
        ensures
            r.id_of() == id,
            r.body() == Ok::<serde_json::Value, RpcError>(result),
    {
        Response { kind: Kind::Success { result }, id }
    }

    /// Creates a new error response from a response ID and `RpcError` object.
    pub fn from_error(id: Id, error: RpcError) -> (r: Self)
        ensures
            r.id_of() == id,
            r.body() == Err::<serde_json::Value, RpcError>(error),
    {
        Response { kind: Kind::Failure { error }, id }
    }

    /// Creates a new response from a response ID and either an `Ok(Value)`
    /// or `Err(RpcError)` body.
    pub fn from_parts(id: Id, body: Result<serde_json::Value, RpcError>) -> (r: Self)
        ensures
            r.id_of() == id,
            r.body() == body,
    {
        match body {
            Ok(result) => Response::from_ok(id, result),
            Err(error) => Response::from_error(id, error),
        }
    }

    /// Splits the response into a response ID paired with either an
    /// `Ok(Value)` or `Err(RpcError)` to signify whether the response is a
    /// success or failure.
    pub fn into_parts(self) -> (r: (Id, Result<serde_json::Value, RpcError>))
        ensures
            r == (self.id_of(), self.body()),
    {
        match self.kind {
            Kind::Success { result } => (self.id, Ok(result)),
            Kind::Failure { error } => (self.id, Err(error)),
        }
    }

    /// Returns `true` if the response indicates success.
    pub fn is_ok(&self) -> (b: bool)
        ensures
            b == self.body() is Ok,
    {
        match &self.kind {
            Kind::Success { .. } => true,
            Kind::Failure { .. } => false,
        }
    }

    /// Returns `true` if the response indicates failure.
    pub fn is_error(&self) -> (b: bool)
        ensures
            b == self.body() is Err,
    {
        !self.is_ok()
    }

    /// Returns the `result` value, if it exists.
    ///
    /// This member only exists if the response indicates success.
    pub fn result(&self) -> (r: Option<&serde_json::Value>)
        ensures
            match self.body() {
                Ok(v) => r == Some(&v),
                Err(_) => r is None,
            },
    {
        match &self.kind {
            Kind::Success { result } => Some(result),
            Kind::Failure { .. } => None,
        }
    }

    /// Returns the `error` value, if it exists.
    ///
    /// This member only exists if the response indicates failure.
    pub fn error(&self) -> (r: Option<&RpcError>)
        ensures
            match self.body() {
                Ok(_) => r is None,
                Err(e) => r == Some(&e),
            },
    {
        match &self.kind {
            Kind::Failure { error } => Some(error),
            Kind::Success { .. } => None,
        }
    }

    /// Returns the corresponding response ID.
    pub fn id(&self) -> (r: &Id)
        ensures
            *r == self.id_of(),
    {
        &self.id
    }
}

/// A response is determined by its ID and its body, so building a response
/// from the parts that [`Response::into_parts`] gives back yields the same
/// response.
pub proof fn lemma_parts_roundtrip(a: Response, b: Response)
    requires
        a.id_of() == b.id_of(),
        a.body() == b.body(),
    ensures
        a == b,
{
    match (a.kind, b.kind) {
        (Kind::Success { .. }, Kind::Success { .. }) => {},
        (Kind::Failure { .. }, Kind::Failure { .. }) => {},
        (Kind::Success { .. }, Kind::Failure { .. }) => {
            assert(a.body() is Ok);
        },
        (Kind::Failure { .. }, Kind::Success { .. }) => {
            assert(a.body() is Err);
        },
    }
}

} // verus!
