//! Service abstraction for language servers: the lifecycle of the server
//! and the answers that it gives in each state.

use vstd::prelude::*;

pub mod client;
pub mod pending;

use crate::codec::str_chars;
use crate::jsonrpc::{not_initialized_error, ErrorCode, Id, Response, RpcError};

verus! {

/// Error that occurs when attempting to call the language server after it
/// has already exited.
#[derive(Debug, PartialEq, Eq, Clone, Copy)]
pub struct ExitedError(());

impl ExitedError {
    /// The error.
    pub fn new() -> ExitedError {
        ExitedError(())
    }

    /// The text that describes the error: `language server has exited`.
    pub fn message(&self) -> (s: &'static str)
        ensures
            s@ == "language server has exited"@,
    {
        "language server has exited"
    }
}

/// The lifecycle of a language server.
#[derive(Debug, PartialEq, Eq, Structural, Clone, Copy)]
pub enum State {
    /// Waiting for the `initialize` request.
    Uninitialized,
    /// Serving the `initialize` request.
    Initializing,
    /// Serving requests.
    Initialized,
    /// The `shutdown` request was received.
    ShutDown,
    /// The `exit` notification was received.
    Exited,
}

/// Whether the service can take a message.
#[derive(Debug, PartialEq, Eq, Structural, Clone, Copy)]
pub enum Readiness {
    /// Not yet: the `initialize` request is being served.
    Pending,
    /// Yes.
    Ready,
    /// Never again: the server has exited.
    Exited,
}

/// Whether the service in state `s` can take a message.
pub fn readiness(s: State) -> (r: Readiness)
    ensures
        r == match s {
            State::Initializing => Readiness::Pending,
            State::Exited => Readiness::Exited,
            _ => Readiness::Ready,
        },
{
    match s {
        State::Initializing => Readiness::Pending,
        State::Exited => Readiness::Exited,
        _ => Readiness::Ready,
    }
}

/// Whether a call is refused with [`ExitedError`] in state `s`.
pub fn refuses_calls(s: State) -> (b: bool)
    ensures
        b == (s == State::Exited),
{
    match s {
        State::Exited => true,
        _ => false,
    }
}

/// The kinds of method, by how the lifecycle treats them.
#[derive(Debug, PartialEq, Eq, Structural, Clone, Copy)]
pub enum MethodKind {
    /// The `initialize` request.
    Initialize,
    /// The `shutdown` request.
    Shutdown,
    /// The `exit` notification.
    Exit,
    /// Every other method.
    Normal,
}

/// What the lifecycle makes of a message: hand it to the method, or answer
/// it at once.
pub enum Admission {
    /// Call the method (a request through the table of pending requests).
    Forward,
    /// Answer without calling the method.
    Answer(Option<Response>),
}

/// `a` is the answer to a message with ID `id` refused in state `s`.
pub open spec fn refusal(a: Option<Response>, id: Option<Id>, s: State) -> bool {
    match id {
        None => a is None,
        Some(i) => a matches Some(resp) && resp.id_of() == i && (resp.body() matches Err(e) && (
        if s == State::Uninitialized || s == State::Initializing {
            e.is_not_initialized()
        } else {
            e.is_standard(ErrorCode::InvalidRequest)
        })),
    }
}

/// The answer to a message that the lifecycle refuses in state `s`: before
/// initialization a request gets the "server not initialized" error, after
/// it an "invalid request" error; a notification gets no answer.
pub fn not_initialized_response(id: Option<Id>, s: State) -> (r: Option<Response>)
    ensures
        refusal(r, id, s),
{
    match id {
        None => None,
        Some(i) => {
            let error = match s {
                State::Uninitialized | State::Initializing => not_initialized_error(),
                _ => RpcError::invalid_request(),
            };
            Some(Response::from_error(i, error))
        },
    }
}

/// The lifecycle's decision on a message of the given kind, with ID `id`,
/// in state `s`: the state it moves to and what is done with the message.
pub open spec fn lifecycle_state(kind: MethodKind, s: State) -> State {
    match kind {
        MethodKind::Initialize => if s == State::Uninitialized {
            State::Initializing
        } else {
            s
        },
        MethodKind::Shutdown => if s == State::Initialized {
            State::ShutDown
        } else {
            s
        },
        MethodKind::Exit => State::Exited,
        MethodKind::Normal => s,
    }
}

/// Whether the lifecycle hands a message of the given kind to its method in
/// state `s`.
pub open spec fn lifecycle_forwards(kind: MethodKind, s: State) -> bool {
    match kind {
        MethodKind::Initialize => s == State::Uninitialized,
        MethodKind::Shutdown => s == State::Initialized,
        MethodKind::Exit => true,
        MethodKind::Normal => s == State::Initialized,
    }
}

/// Decides what happens to a message of the given kind with ID `id` in
/// state `s`. A repeated `initialize` gets an "invalid request" error; the
/// other refused messages get [`not_initialized_response`].
pub fn decide(kind: MethodKind, id: Option<Id>, s: State) -> (r: (State, Admission))
    ensures
        r.0 == lifecycle_state(kind, s),
        r.1 is Forward <==> lifecycle_forwards(kind, s),
        kind == MethodKind::Exit ==> r.0 == State::Exited && r.1 is Forward,
        kind == MethodKind::Normal ==> (r.1 is Forward <==> s == State::Initialized) && r.0 == s,
        (kind == MethodKind::Initialize && s != State::Uninitialized) ==> (r.1 matches Admission::Answer(a)
            && match id {
            None => a is None,
            Some(i) => a matches Some(resp) && resp.id_of() == i && (resp.body() matches Err(e)
                && e.is_standard(ErrorCode::InvalidRequest)),
        }),
        (kind != MethodKind::Initialize && !lifecycle_forwards(kind, s)) ==> (r.1 matches Admission::Answer(a)
            && refusal(a, id, s)),
{
    match kind {
        MethodKind::Initialize => {
            if s == State::Uninitialized {
                (State::Initializing, Admission::Forward)
            } else {
                let a = match id {
                    Some(i) => Some(Response::from_error(i, RpcError::invalid_request())),
                    None => None,
                };
                (s, Admission::Answer(a))
            }
        },
        MethodKind::Shutdown => {
            if s == State::Initialized {
                (State::ShutDown, Admission::Forward)
            } else {
                (s, Admission::Answer(not_initialized_response(id, s)))
            }
        },
        MethodKind::Exit => (State::Exited, Admission::Forward),
        MethodKind::Normal => {
            if s == State::Initialized {
                (s, Admission::Forward)
            } else {
                (s, Admission::Answer(not_initialized_response(id, s)))
            }
        },
    }
}

/// The state after the `initialize` request was served: initialized when
/// it succeeded, uninitialized again (so that it may be retried) when not.
pub fn initialize_finished(succeeded: bool) -> (s: State)
    ensures
        s == (if succeeded {
            State::Initialized
        } else {
            State::Uninitialized
        }),
{
    if succeeded {
        State::Initialized
    } else {
        State::Uninitialized
    }
}

/// The server accepts `initialize` only while uninitialized: once it is
/// being initialized, initialized, shut down or exited, every further
/// `initialize` is answered without reaching the server.
pub proof fn lemma_initialize_only_once(s: State)
    requires
        s != State::Uninitialized,
    ensures
        !lifecycle_forwards(MethodKind::Initialize, s),
        lifecycle_state(MethodKind::Initialize, s) == s,
{
}

/// After `shutdown`, no request other than `exit` reaches the server, and
/// the state stays shut down until `exit`.
pub proof fn lemma_refuses_after_shutdown(kind: MethodKind)
    ensures
        kind != MethodKind::Exit ==> !lifecycle_forwards(kind, State::ShutDown)
            && lifecycle_state(kind, State::ShutDown) == State::ShutDown,
{
}

/// Once exited, the server stays exited and every call is refused.
pub proof fn lemma_exit_is_final(kind: MethodKind)
    ensures
        lifecycle_state(kind, State::Exited) == State::Exited,
{
}

/// Once initialized, the server serves every message but a repeated
/// `initialize`, and stays initialized; ordinary methods are served in that
/// state and in no other.
pub proof fn lemma_initialized_serves(kind: MethodKind, s: State)
    ensures
        kind != MethodKind::Initialize ==> lifecycle_forwards(kind, State::Initialized),
        kind == MethodKind::Normal ==> lifecycle_state(kind, State::Initialized)
            == State::Initialized,
        lifecycle_forwards(MethodKind::Normal, s) <==> s == State::Initialized,
{
}

/// `exit` ends the session from every state: the server is exited, so the
/// service is never ready again and refuses every call, and the `exit`
/// notification itself is served.
pub proof fn lemma_exit_from_any_state(s: State)
    ensures
        lifecycle_state(MethodKind::Exit, s) == State::Exited,
        lifecycle_forwards(MethodKind::Exit, s),
{
}

/// `Value::String(s)` gives `Some(s)`; every other value gives `None`.
#[verifier::external_body]
fn json_as_string(v: &serde_json::Value) -> (r: Option<String>)
    ensures
        match r {
            Some(t) => crate::jsonrpc::router::json_str_of(*v) == Some(t@),
            None => crate::jsonrpc::router::json_str_of(*v) is None,
        },
{
    match v {
        serde_json::Value::String(s) => Some(s.clone()),
        _ => None,
    }
}

/// Whether a text starts with `$/`, the prefix of the protocol's optional
/// notifications and requests.
pub fn is_protocol_method(text: &str) -> (b: bool)
    ensures
        b == (text@.len() >= 2 && text@[0] == '$' && text@[1] == '/'),
{
    let cs = str_chars(text);
    cs.len() >= 2 && cs[0] == '$' && cs[1] == '/'
}

/// Whether an error with this code and this text as its `data` is kept from
/// the client: a "method not found" error for a `$/` method.
pub fn is_silenced(code: ErrorCode, data_text: Option<&str>) -> (b: bool)
    ensures
        b == (code == ErrorCode::MethodNotFound && (data_text matches Some(t) && t@.len() >= 2
            && t@[0] == '$' && t@[1] == '/')),
{
    match (code, data_text) {
        (ErrorCode::MethodNotFound, Some(t)) => is_protocol_method(t),
        _ => false,
    }
}

/// Whether the service drops this answer of the router: a "method not
/// found" error for a `$/` method, whose name the error carries as a JSON
/// string in its `data`.
pub open spec fn is_silenced_response(response: Option<Response>) -> bool {
    response matches Some(resp) && (resp.body() matches Err(e) && e.code == ErrorCode::MethodNotFound
        && (e.data matches Some(d) && (crate::jsonrpc::router::json_str_of(d) matches Some(t)
        && t.len() >= 2 && t[0] == '$' && t[1] == '/')))
}

/// The answer that the service gives for what the router answered: the
/// same, except that a "method not found" error for a `$/` method (whose
/// name the error carries as a JSON string in its `data`) is dropped.
pub fn service_response(response: Option<Response>) -> (r: Option<Response>)
    ensures
        r == (if is_silenced_response(response) {
            None
        } else {
            response
        }),
{
    let silenced = match &response {
        Some(resp) => match resp.error() {
            Some(e) => match &e.data {
                Some(d) => {
                    let text = json_as_string(d);
                    match &text {
                        Some(t) => is_silenced(e.code, Some(t.as_str())),
                        None => false,
                    }
                },
                None => false,
            },
            None => false,
        },
        None => false,
    };
    if silenced {
        None
    } else {
        response
    }
}

} // verus!
