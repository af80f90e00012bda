//! JSON-RPC requests and notifications.

use vstd::prelude::*;
use vstd::std_specs::convert::IntoSpec;

use super::Id;

verus! {

/// A JSON-RPC request or notification.
#[derive(Debug, PartialEq, Clone)]
pub struct Request {
    method: String,
    params: Option<serde_json::Value>,
    id: Option<Id>,
}

impl Request {
    /// The name of the method to be invoked.
    pub closed spec fn method_name(self) -> Seq<char> {
        self.method@
    }

    /// The request ID; a notification has none.
    pub closed spec fn id_of(self) -> Option<Id> {
        self.id
    }

    /// The `params` field, if present.
    pub closed spec fn params_of(self) -> Option<serde_json::Value> {
        self.params
    }

    /// Starts building a JSON-RPC method call.
    ///
    /// Returns a `RequestBuilder`, which allows setting the `params` field or
    /// adding a request ID.
    pub fn build(method: &str) -> (b: RequestBuilder)
        ensures
            b.method_name() == method@,
            b.params_of() is None,
            b.id_of() is None,
    {
        RequestBuilder { method: method.to_owned(), params: None, id: None }
    }

    /// Returns the name of the method to be invoked.
    pub fn method(&self) -> (m: &str)
        ensures
            m@ == self.method_name(),
    {
        self.method.as_str()
    }

    /// Returns the unique ID of this request, if present.
    pub fn id(&self) -> (r: Option<&Id>)
        ensures
            match self.id_of() {
                Some(i) => r == Some(&i),
                None => r is None,
            },
    {
        match &self.id {
            Some(i) => Some(i),
            None => None,
        }
    }

    /// Returns the `params` field, if present.
    pub fn params(&self) -> (r: Option<&serde_json::Value>)
        ensures
            match self.params_of() {
                Some(p) => r == Some(&p),
                None => r is None,
            },
    {
        match &self.params {
            Some(p) => Some(p),
            None => None,
        }
    }

    /// Splits this request into the method name, request ID, and the
    /// `params` field, if present.
    pub fn into_parts(self) -> (r: (String, Option<Id>, Option<serde_json::Value>))
        ensures
            r.0@ == self.method_name(),
            r.1 == self.id_of(),
            r.2 == self.params_of(),
    {
        (self.method, self.id, self.params)
    }
}

/// A builder to construct the properties of a `Request`.
///
/// To construct a `RequestBuilder`, refer to [`Request::build`].
#[derive(Debug)]
pub struct RequestBuilder {
    method: String,
    params: Option<serde_json::Value>,
    id: Option<Id>,
}

impl RequestBuilder {
    pub closed spec fn method_name(self) -> Seq<char> {
        self.method@
    }

    pub closed spec fn id_of(self) -> Option<Id> {
        self.id
    }

    pub closed spec fn params_of(self) -> Option<serde_json::Value> {
        self.params
    }

    /// Sets the `id` member of the request to the given value.
    ///
    /// If this method is not called, the resulting `Request` will be assumed
    /// to be a notification.
    pub fn id<I: Into<Id>>(self, id: I) -> (b: Self)
        ensures
            b.method_name() == self.method_name(),
            b.params_of() == self.params_of(),
            b.id_of() is Some,
            I::obeys_into_spec() ==> b.id_of() == Some(id.into_spec()),
    {
        RequestBuilder { method: self.method, params: self.params, id: Some(id.into()) }
    }

    /// Sets the `params` member of the request to the given value.
    ///
    /// This member is omitted from the request by default.
    pub fn params(self, params: serde_json::Value) -> (b: Self)
        ensures
            b.method_name() == self.method_name(),
            b.id_of() == self.id_of(),
            b.params_of() == Some(params),
    {
        RequestBuilder { method: self.method, params: Some(params), id: self.id }
    }

    /// Constructs the JSON-RPC request and returns it.
    pub fn finish(self) -> (r: Request)
        ensures
            r.method_name() == self.method_name(),
            r.id_of() == self.id_of(),
            r.params_of() == self.params_of(),
    {
        Request { method: self.method, params: self.params, id: self.id }
    }
}

} // verus!
