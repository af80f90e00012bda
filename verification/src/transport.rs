//! Generic server for multiplexing bidirectional streams through a
//! transport: its settings, and the answers it gives on its own.

use vstd::prelude::*;

use crate::codec::{ParseError, ParseErrorKind};
use crate::jsonrpc::{ErrorCode, Id, Message, Request, Response, RpcError};

verus! {

/// The number of incoming requests processed at once unless set otherwise.
pub const DEFAULT_MAX_CONCURRENCY: usize = 4;

/// The capacity of the queue of server tasks.
pub const MESSAGE_QUEUE_SIZE: usize = 100;

/// Server for processing requests and responses on standard I/O or TCP.
pub struct Server<I, O, L> {
    stdin: I,
    stdout: O,
    loopback: L,
    max_concurrency: usize,
}

impl<I, O, L> Server<I, O, L> {
    /// The number of requests processed at once.
    pub closed spec fn concurrency(&self) -> usize {
        self.max_concurrency
    }

    /// The input, output and loopback handles.
    pub closed spec fn handles(&self) -> (I, O, L) {
        (self.stdin, self.stdout, self.loopback)
    }

    /// Creates a new `Server` with the given `stdin` and `stdout` handles.
    pub fn new(stdin: I, stdout: O, socket: L) -> (s: Self)
        ensures
            s.handles() == (stdin, stdout, socket),
            s.concurrency() == DEFAULT_MAX_CONCURRENCY,
    {
        Server { stdin, stdout, loopback: socket, max_concurrency: DEFAULT_MAX_CONCURRENCY }
    }

    /// Sets the server concurrency limit to `max`.
    ///
    /// This setting specifies how many incoming requests may be processed
    /// concurrently. Setting this value to `1` forces all requests to be
    /// processed sequentially, thereby implicitly disabling support for the
    /// `$/cancelRequest` notification.
    pub fn concurrency_level(self, max: usize) -> (s: Self)
        ensures
            s.handles() == self.handles(),
            s.concurrency() == max,
    {
        Server { stdin: self.stdin, stdout: self.stdout, loopback: self.loopback, max_concurrency: max }
    }

    /// The concurrency limit.
    pub fn max_concurrency(&self) -> (n: usize)
        ensures
            n == self.concurrency(),
    {
        self.max_concurrency
    }

    /// Splits the server into its handles and its concurrency limit.
    pub fn into_parts(self) -> (r: (I, O, L, usize))
        ensures
            (r.0, r.1, r.2) == self.handles(),
            r.3 == self.concurrency(),
    {
        (self.stdin, self.stdout, self.loopback, self.max_concurrency)
    }
}

/// Joins the messages of an error and of its sources, outermost first, with
/// `": "` between them.
pub open spec fn joined_sources(messages: Seq<Seq<char>>) -> Seq<char>
    decreases messages.len(),
{
    if messages.len() == 0 {
        Seq::empty()
    } else if messages.len() == 1 {
        messages[0]
    } else {
        messages[0] + ": "@ + joined_sources(messages.drop_first())
    }
}

/// The text of an error followed by the texts of its sources, given the
/// texts of the error and of each source in turn.
pub fn display_sources(messages: &[String]) -> (s: String)
    ensures
        s@ == joined_sources(messages@.map_values(|m: String| m@)),
{
    let ghost texts = messages@.map_values(|m: String| m@);
    let n = messages.len();
    if n == 0 {
        return String::new();
    }
    let mut out = String::new();
    let mut k: usize = n;
    // Build from the innermost source outwards.
    out.append(messages[n - 1].as_str());
    k = n - 1;
    proof {
        assert(texts.skip(k as int).len() == 1);
        assert(out@ == joined_sources(texts.skip(k as int)));
    }
    while k > 0
        invariant
            0 <= k < n,
            n == messages@.len(),
            texts == messages@.map_values(|m: String| m@),
            out@ == joined_sources(texts.skip(k as int)),
        decreases k,
    {
        let mut prefix = String::new();
        prefix.append(messages[k - 1].as_str());
        prefix.append(": ");
        prefix.append(out.as_str());
        proof {
            reveal_strlit(": ");
            assert(texts.skip(k - 1).drop_first() =~= texts.skip(k as int));
            assert(texts.skip(k - 1)[0] == messages@[k - 1]@);
        }
        out = prefix;
        k = k - 1;
    }
    assert(texts.skip(0) =~= texts);
    out
}

/// Whether `serde_json::Error::is_data` holds of an error: the JSON was well
/// formed but did not fit the expected shape.
pub uninterp spec fn json_error_is_data_of(e: serde_json::Error) -> bool;

/// `serde_json::Error::is_data`, a function of the error's category.
#[verifier::external_body]
fn json_error_is_data(e: &serde_json::Error) -> (b: bool)
    ensures
        b == json_error_is_data_of(*e),
{
    e.is_data()
}

/// The code of the JSON-RPC error that answers a decoding error: "invalid
/// request" for a body of well-formed JSON of the wrong shape, "parse error"
/// for anything else.
pub open spec fn decode_error_code(err: ParseError) -> ErrorCode {
    match err {
        ParseError::Body(inner) => if json_error_is_data_of(inner) {
            ErrorCode::InvalidRequest
        } else {
            ErrorCode::ParseError
        },
        _ => ErrorCode::ParseError,
    }
}

/// The JSON-RPC error that answers a message that could not be decoded, by
/// the kind of decoding error and, for a body that is not the expected JSON,
/// whether the JSON itself was well formed: a well-formed body of the wrong
/// shape is an invalid request, anything else a parse error.
pub fn jsonrpc_error_for(kind: ParseErrorKind, body_is_data: bool) -> (e: RpcError)
    ensures
        e.is_standard(
            if kind == ParseErrorKind::Body && body_is_data {
                ErrorCode::InvalidRequest
            } else {
                ErrorCode::ParseError
            },
        ),
{
    if kind == ParseErrorKind::Body && body_is_data {
        RpcError::invalid_request()
    } else {
        RpcError::parse_error()
    }
}

/// The JSON-RPC error that answers a message that could not be decoded: an
/// "invalid request" error for a body of well-formed JSON of the wrong shape,
/// a "parse error" for anything else.
pub fn to_jsonrpc_error(err: ParseError) -> (e: RpcError)
    ensures
        e.is_standard(decode_error_code(err)),
{
    let kind = err.error_kind();
    let is_data = match &err {
        ParseError::Body(inner) => json_error_is_data(inner),
        _ => false,
    };
    jsonrpc_error_for(kind, is_data)
}

/// The response written for a message that could not be decoded: the error
/// of [`to_jsonrpc_error`], with a `null` ID since the request's ID is
/// unknown.
pub fn decode_failure_response(err: ParseError) -> (r: Response)
    ensures
        r.id_of() == Id::Null,
        r.body() matches Err(e) && e.is_standard(decode_error_code(err)),
{
    Response::from_error(Id::Null, to_jsonrpc_error(err))
}

/// What the server does with a message read from its input.
pub enum InputAction {
    /// Hand the request or notification to the service.
    Serve(Request),
    /// Route the client's response back to the request that awaits it.
    Forward(Response),
    /// Write this response to the output.
    Reply(Response),
    /// Nothing.
    Ignore,
}

/// Decides what the server does with a message read from its input: a
/// request goes to the service, a response goes back to the server's
/// pending request, a message that could not be decoded is answered with
/// the error of [`to_jsonrpc_error`] under a `null` ID, and an invalid
/// message that carries an `id` field is answered with an "invalid request"
/// error (under its ID, or `null` when the field is no ID); an invalid
/// message without an `id` field, which may be a failed notification, gets
/// no answer.
pub fn route_input(msg: Result<Message, ParseError>) -> (a: InputAction)
    ensures
        match msg {
            Ok(Message::Request(req)) => a == InputAction::Serve(req),
            Ok(Message::Response(res)) => a == InputAction::Forward(res),
            Ok(Message::Invalid { id: None }) => a is Ignore,
            Ok(Message::Invalid { id: Some(Some(i)) }) => a matches InputAction::Reply(r)
                && r.id_of() == i && (r.body() matches Err(e) && e.is_standard(
                ErrorCode::InvalidRequest,
            )),
            Ok(Message::Invalid { id: Some(None) }) => a matches InputAction::Reply(r) && r.id_of()
                == Id::Null && (r.body() matches Err(e) && e.is_standard(ErrorCode::InvalidRequest)),
            Err(err) => a matches InputAction::Reply(r) && r.id_of() == Id::Null && (r.body() matches Err(
                e,
            ) && e.is_standard(decode_error_code(err))),
        },
{
    match msg {
        Ok(Message::Request(req)) => InputAction::Serve(req),
        Ok(Message::Response(res)) => InputAction::Forward(res),
        Ok(Message::Invalid { id: None }) => InputAction::Ignore,
        Ok(Message::Invalid { id: Some(Some(i)) }) => InputAction::Reply(
            Response::from_error(i, RpcError::invalid_request()),
        ),
        Ok(Message::Invalid { id: Some(None) }) => InputAction::Reply(
            Response::from_error(Id::Null, RpcError::invalid_request()),
        ),
        Err(err) => InputAction::Reply(decode_failure_response(err)),
    }
}

} // verus!
