//! Lightweight JSON-RPC router: a table of method handlers and the rules
//! that decide what a handler answers.

use vstd::prelude::*;

use super::{ErrorCode, Id, Request, Response, RpcError};

verus! {

/// Marks the traits of this module as implemented only here.
pub trait Sealed {

}

impl<T> Sealed for T {

}

/// A modular JSON-RPC 2.0 request router: the shared server state and a
/// table of handlers keyed by method name, in registration order.
pub struct Router<S, H> {
    server: S,
    methods: Vec<(String, H)>,
}

/// The names of a handler table, in order.
pub open spec fn table_names<H>(methods: Seq<(String, H)>) -> Seq<Seq<char>> {
    methods.map_values(|m: (String, H)| m.0@)
}

/// No name occurs twice.
pub open spec fn distinct_names(names: Seq<Seq<char>>) -> bool {
    forall|i: int, j: int| 0 <= i < names.len() && 0 <= j < names.len() && i != j ==> names[i] != names[j]
}

impl<S, H> Router<S, H> {
    /// The registered method names, in registration order.
    pub closed spec fn names(&self) -> Seq<Seq<char>> {
        table_names(self.methods@)
    }

    /// The handler registered at position `i`.
    pub closed spec fn handler_at(&self, i: int) -> H {
        self.methods@[i].1
    }

    /// The shared server state.
    pub closed spec fn server(&self) -> S {
        self.server
    }

    /// Each method name is registered at most once.
    pub open spec fn well_formed(&self) -> bool {
        distinct_names(self.names())
    }

    /// Creates a new `Router` with the given shared state.
    pub fn new(server: S) -> (r: Self)
        ensures
            r.server() == server,
            r.names() == Seq::<Seq<char>>::empty(),
            r.well_formed(),
    {
        let r = Router { server, methods: Vec::new() };
        assert(r.names() =~= Seq::<Seq<char>>::empty());
        r
    }

    /// Returns a reference to the inner server.
    pub fn inner(&self) -> (s: &S)
        ensures
            *s == self.server(),
    {
        &self.server
    }

    /// Returns a mutable reference to the inner server.
    pub fn inner_mut(&mut self) -> (s: &mut S)
        ensures
            *s == old(self).server(),
            final(self).server() == *final(s),
            final(self).names() == old(self).names(),
            forall|i: int|
                0 <= i < old(self).names().len() ==> final(self).handler_at(i) == old(
                    self,
                ).handler_at(i),
    {
        &mut self.server
    }

    /// The position of the handler registered under `name`, if any.
    pub fn lookup(&self, name: &str) -> (r: Option<usize>)
        ensures
            match r {
                Some(i) => i < self.names().len() && self.names()[i as int] == name@,
                None => !self.names().contains(name@),
            },
    {
        let wanted = name.to_owned();
        let mut i: usize = 0;
        while i < self.methods.len()
            invariant
                i <= self.methods@.len(),
                wanted@ == name@,
                forall|j: int| 0 <= j < i ==> self.names()[j] != name@,
            decreases self.methods.len() - i,
        {
            if self.methods[i].0 == wanted {
                return Some(i);
            }
            i = i + 1;
        }
        proof {
            if self.names().contains(name@) {
                let j = choose|j: int| 0 <= j < self.names().len() && self.names()[j] == name@;
                assert(self.names()[j] != name@);
            }
        }
        None
    }

    /// Registers `handler` under `name`, unless a handler is registered under
    /// that name already, in which case nothing changes.
    pub fn method(&mut self, name: &str, handler: H)
        requires
            old(self).well_formed(),
        ensures
            final(self).well_formed(),
            final(self).server() == old(self).server(),
            old(self).names().contains(name@) ==> final(self).names() == old(self).names() && forall|
                i: int,
            | 0 <= i < old(self).names().len() ==> final(self).handler_at(i) == old(self).handler_at(i),
            !old(self).names().contains(name@) ==> final(self).names() == old(self).names().push(
                name@,
            ) && final(self).handler_at(old(self).names().len() as int) == handler && forall|
                i: int,
            | 0 <= i < old(self).names().len() ==> final(self).handler_at(i) == old(self).handler_at(i),
    {
        match self.lookup(name) {
            Some(_) => {},
            None => {
                self.methods.push((name.to_owned(), handler));
                assert(self.names() =~= old(self).names().push(name@));
            },
        }
    }

    /// The handler at position `i` of the table.
    pub fn handler_mut(&mut self, i: usize) -> (h: &mut H)
        requires
            i < old(self).names().len(),
        ensures
            *h == old(self).handler_at(i as int),
            final(self).handler_at(i as int) == *final(h),
            final(self).names() == old(self).names(),
            final(self).server() == old(self).server(),
            forall|j: int|
                0 <= j < old(self).names().len() && j != i ==> final(self).handler_at(j) == old(
                    self,
                ).handler_at(j),
    {
        &mut self.methods[i].1
    }
}

/// The text of a JSON value that is a string (`Value::String`); `None` for
/// every other value.
pub uninterp spec fn json_str_of(v: serde_json::Value) -> Option<Seq<char>>;

/// `serde_json::Value::from(String)`: the JSON string holding the text
/// (`Value::String`).
#[verifier::external_body]
pub(crate) fn json_string(s: String) -> (v: serde_json::Value)
    ensures
        json_str_of(v) == Some(s@),
{
    serde_json::Value::from(s)
}

/// The text of a JSON value (its `Display` form), which `Display` writes
/// with the same writer as `serde_json::to_string`: where that text is
/// known, this is it.
#[verifier::external_body]
fn json_text(v: &serde_json::Value) -> (s: String)
    ensures
        crate::codec::json_text_of(*v) matches Some(t) ==> s@ == t,
{
    v.to_string()
}

/// Whether `r` is an error response with the given ID and error code.
pub open spec fn is_error_response(r: Response, id: Id, code: ErrorCode) -> bool {
    r.id_of() == id && (r.body() matches Err(e) && e.code == code)
}

/// Whether `r` is the response with the given ID that carries the error of
/// `code` as [`RpcError::new`] makes it.
pub open spec fn is_standard_error_response(r: Response, id: Id, code: ErrorCode) -> bool {
    r.id_of() == id && (r.body() matches Err(e) && e.is_standard(code))
}

/// The answer to a message for a method that no handler serves: a request
/// gets a "method not found" error that carries the method name as its
/// `data`; a notification gets no answer.
pub fn unknown_method_response(req: Request) -> (r: Option<Response>)
    ensures
        match req.id_of() {
            None => r is None,
            Some(id) => r matches Some(resp) && is_error_response(resp, id, ErrorCode::MethodNotFound)
                && (resp.body() matches Err(e) && e.message@ == "Method not found"@ && (e.data matches Some(
                d,
            ) && json_str_of(d) == Some(req.method_name()))),
        },
{
    let (method, id, _) = req.into_parts();
    match id {
        Some(id) => {
            let mut error = RpcError::method_not_found();
            error.data = Some(json_string(method));
            Some(Response::from_error(id, error))
        },
        None => None,
    }
}

/// The answer that a notification handler gives: a message that carries an
/// ID gets an "invalid request" error, since a request must not be served by
/// a notification handler.
pub fn notification_into_response(id: Option<Id>) -> (r: Option<Response>)
    ensures
        match id {
            None => r is None,
            Some(i) => r matches Some(resp) && is_error_response(resp, i, ErrorCode::InvalidRequest)
                && (resp.body() matches Err(e) && e.message@ == "Invalid request"@ && e.data is None),
        },
{
    match id {
        Some(i) => Some(Response::from_error(i, RpcError::invalid_request())),
        None => None,
    }
}

/// The answer that a request handler gives: with an ID, the result (or the
/// handler's error, or an internal error when the result could not be
/// serialized, whose message is given); without an ID, none.
pub fn request_into_response(id: Option<Id>, outcome: Result<Result<serde_json::Value, String>, RpcError>) -> (r: Option<Response>)
    ensures
        match id {
            None => r is None,
            Some(i) => r matches Some(resp) && resp.id_of() == i && match outcome {
                Ok(Ok(v)) => resp.body() == Ok::<serde_json::Value, RpcError>(v),
                Ok(Err(m)) => resp.body() matches Err(e) && e.code == ErrorCode::InternalError
                    && e.message == m && e.data is None,
                Err(e) => resp.body() == Err::<serde_json::Value, RpcError>(e),
            },
        },
{
    match id {
        None => None,
        Some(i) => {
            let body = match outcome {
                Ok(Ok(v)) => Ok(v),
                Ok(Err(m)) => Err(RpcError { code: ErrorCode::InternalError, message: m, data: None }),
                Err(e) => Err(e),
            };
            Some(Response::from_parts(i, body))
        },
    }
}

/// What a method handler answers before it calls the method, if anything: a
/// request sent to a notification handler gets an "invalid request" error,
/// a notification sent to a request handler is dropped without an answer,
/// and every other message goes on to the method (`None`).
pub fn early_response(id: &Option<Id>, is_notification: bool) -> (r: Option<Option<Response>>)
    ensures
        match (id, is_notification) {
            (Some(i), true) => r matches Some(Some(resp)) && is_standard_error_response(
                resp,
                *i,
                ErrorCode::InvalidRequest,
            ),
            (None, false) => r == Some(None::<Response>),
            _ => r is None,
        },
{
    match (id, is_notification) {
        (Some(i), true) => Some(notification_into_response(Some(i.clone()))),
        (None, false) => Some(None),
        _ => None,
    }
}

/// What a method handler does with a message: answer it at once, or call
/// the method with the parameters read from the message.
pub enum HandlerStep<P> {
    /// Answer with this, without calling the method.
    Answer(Option<Response>),
    /// Call the method with these parameters.
    Call(P),
}

/// The first step of a method handler on a message with ID `id` and
/// `params` field `params`: the early answer of [`early_response`] if there
/// is one; otherwise the parameters are read with `read` (only then), and
/// the method is called with them, or, when they cannot be read, the message
/// is answered as [`params_error_response`] says.
pub fn handler_step<P, F: FnOnce(Option<serde_json::Value>) -> Result<P, RpcError>>(
    id: &Option<Id>,
    is_notification: bool,
    params: Option<serde_json::Value>,
    read: F,
) -> (s: HandlerStep<P>)
    requires
        read.requires((params,)),
    ensures
        match (id, is_notification) {
            (Some(i), true) => s matches HandlerStep::Answer(Some(resp)) && is_standard_error_response(
                resp,
                *i,
                ErrorCode::InvalidRequest,
            ),
            (None, false) => s matches HandlerStep::Answer(None),
            _ => (s matches HandlerStep::Call(p) ==> read.ensures((params,), Ok::<P, RpcError>(p)))
                && (s matches HandlerStep::Answer(a) ==> exists|e: RpcError|
                read.ensures((params,), Err::<P, RpcError>(e)) && match id {
                    Some(i) => a matches Some(resp) && resp.id_of() == *i && resp.body() == Err::<
                        serde_json::Value,
                        RpcError,
                    >(e),
                    None => a is None,
                }),
        },
{
    match early_response(id, is_notification) {
        Some(answer) => HandlerStep::Answer(answer),
        None => match read(params) {
            Ok(p) => HandlerStep::Call(p),
            Err(e) => HandlerStep::Answer(params_error_response(id.clone(), e)),
        },
    }
}

/// The answer to a message whose parameters could not be read: the error,
/// for a request; nothing, for a notification.
pub fn params_error_response(id: Option<Id>, err: RpcError) -> (r: Option<Response>)
    ensures
        match id {
            None => r is None,
            Some(i) => r matches Some(resp) && resp.id_of() == i && resp.body() == Err::<
                serde_json::Value,
                RpcError,
            >(err),
        },
{
    match id {
        Some(i) => Some(Response::from_error(i, err)),
        None => None,
    }
}

/// Reads the parameters of a method that takes none: any `params` field is
/// an "invalid params" error.
pub fn unit_from_params(params: Option<serde_json::Value>) -> (r: Result<(), RpcError>)
    ensures
        r is Ok <==> params is None,
        r matches Err(e) ==> e.code == ErrorCode::InvalidParams && e.data is None,
        params matches Some(p) ==> (crate::codec::json_text_of(p) matches Some(t) ==> (r matches Err(
            e,
        ) && e.message@ == "Unexpected params: "@ + t)),
{
    match params {
        None => Ok(()),
        Some(p) => {
            let mut message = "Unexpected params: ".to_owned();
            let text = json_text(&p);
            message.append(text.as_str());
            Err(RpcError::invalid_params(message))
        },
    }
}

/// Reads the parameters of a method that requires them, given whether a
/// `params` field was present and, if so, what deserializing it gave (the
/// value, or the deserializer's message): a missing field is an "invalid
/// params" error saying so, a field that does not deserialize is an
/// "invalid params" error with the deserializer's message.
pub fn required_from_params<P>(parsed: Option<Result<P, String>>) -> (r: Result<P, RpcError>)
    ensures
        match parsed {
            None => r matches Err(e) && e.code == ErrorCode::InvalidParams && e.message@
                == "Missing params field"@ && e.data is None,
            Some(Ok(p)) => r == Ok::<P, RpcError>(p),
            Some(Err(m)) => r matches Err(e) && e.code == ErrorCode::InvalidParams && e.message
                == m && e.data is None,
        },
{
    match parsed {
        None => Err(RpcError::invalid_params("Missing params field".to_owned())),
        Some(Ok(p)) => Ok(p),
        Some(Err(m)) => Err(RpcError::invalid_params(m)),
    }
}

} // verus!
