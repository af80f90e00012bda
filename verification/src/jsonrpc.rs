//! A subset of JSON-RPC types used by the Language Server Protocol.

pub use self::error::{not_initialized_error, RpcError, ErrorCode};
pub use self::params::{JsonParts, Params};
pub use self::pending::{ClientRequests, ServerRequests};
pub use self::request::{Request, RequestBuilder};
pub use self::response::Response;
pub use self::router::{Router, Sealed};

use vstd::prelude::*;

mod error;
pub mod params;
pub mod pending;
mod request;
mod response;
pub mod router;

verus! {

/// A unique ID used to correlate requests and responses together.
#[derive(Debug, PartialEq, Eq, Hash)]
pub enum Id {
    /// Numeric ID.
    Number(i64),
    /// String ID.
    String(String),
    /// Null ID.
    ///
    /// While `null` is considered a valid request ID by the JSON-RPC 2.0
    /// specification, its use is _strongly_ discouraged because the
    /// specification also uses a `null` value to indicate an unknown ID in
    /// the response object.
    Null,
}

impl Clone for Id {
    fn clone(&self) -> (r: Self)
        ensures
            r == *self,
    {
        match self {
            Id::Number(n) => Id::Number(*n),
            Id::String(s) => Id::String(s.clone()),
            Id::Null => Id::Null,
        }
    }
}

impl From<i64> for Id {
    fn from(n: i64) -> (r: Self) {
        Id::Number(n)
    }
}

impl vstd::std_specs::convert::FromSpecImpl<i64> for Id {
    open spec fn obeys_from_spec() -> bool {
        true
    }

    open spec fn from_spec(n: i64) -> Self {
        Id::Number(n)
    }
}

impl From<String> for Id {
    fn from(s: String) -> (r: Self) {
        Id::String(s)
    }
}

impl vstd::std_specs::convert::FromSpecImpl<String> for Id {
    open spec fn obeys_from_spec() -> bool {
        true
    }

    open spec fn from_spec(s: String) -> Self {
        Id::String(s)
    }
}

impl Id {
    /// An ID made of the text `s`.
    pub fn from_str(s: &str) -> (r: Self)
        ensures
            r matches Id::String(t) && t@ == s@,
    {
        Id::String(s.to_owned())
    }
}

/// What the `id` field of a message holds, as plain values.
pub enum IdField {
    /// A number, with its value when it is an integer that fits an `i64`.
    Number(Option<i64>),
    /// A string.
    String(String),
    /// Anything else: `null`, a boolean, an array or an object.
    Other,
}

/// The ID read from an `id` field that is present: an integer that fits an
/// `i64` or a string is an ID (`Some(Some(..))`); any other value is not
/// (`Some(None)`).
pub fn id_of_field(field: IdField) -> (r: Option<Option<Id>>)
    ensures
        match field {
            IdField::Number(Some(n)) => r == Some(Some(Id::Number(n))),
            IdField::String(s) => r == Some(Some(Id::String(s))),
            _ => r == Some(None::<Id>),
        },
{
    match field {
        IdField::Number(Some(n)) => Some(Some(Id::Number(n))),
        IdField::Number(None) => Some(None),
        IdField::String(s) => Some(Some(Id::String(s))),
        IdField::Other => Some(None),
    }
}

/// An incoming or outgoing JSON-RPC message.
#[derive(Debug, PartialEq, Clone)]
pub enum Message {
    /// A response message.
    Response(Response),
    /// A request or notification message.
    Request(Request),
    /// An invalid JSON-RPC message.
    Invalid {
        /// The `id` field of the message, if detected: `Some(Some(_))` if a
        /// field named `id` is present and contains an [`Id`], `Some(None)`
        /// if a field named `id` is present but is not an [`Id`], `None` if
        /// no field named `id` is present.
        id: Option<Option<Id>>,
    },
}

} // verus!
