//! RpcError types defined by the JSON-RPC specification.

use vstd::prelude::*;

verus! {

/// A list of numeric error codes used in JSON-RPC responses.
#[derive(Debug, PartialEq, Eq, Structural, Clone, Copy)]
pub enum ErrorCode {
    /// Invalid JSON was received by the server.
    ParseError,
    /// The JSON sent is not a valid Request object.
    InvalidRequest,
    /// The method does not exist / is not available.
    MethodNotFound,
    /// Invalid method parameter(s).
    InvalidParams,
    /// Internal JSON-RPC error.
    InternalError,
    /// Reserved for implementation-defined server errors.
    ServerError(i64),
    /// The request was cancelled by the client.
    RequestCancelled,
    /// The request was invalidated by another incoming request.
    ContentModified,
}

impl ErrorCode {
    /// The number that stands for the code on the wire.
    pub open spec fn number(self) -> int {
        match self {
            ErrorCode::ParseError => -32700,
            ErrorCode::InvalidRequest => -32600,
            ErrorCode::MethodNotFound => -32601,
            ErrorCode::InvalidParams => -32602,
            ErrorCode::InternalError => -32603,
            ErrorCode::RequestCancelled => -32800,
            ErrorCode::ContentModified => -32801,
            ErrorCode::ServerError(code) => code as int,
        }
    }

    /// The code that a number stands for: a reserved number names its code,
    /// any other number is a server error.
    pub open spec fn of_number(code: i64) -> ErrorCode {
        if code == -32700 {
            ErrorCode::ParseError
        } else if code == -32600 {
            ErrorCode::InvalidRequest
        } else if code == -32601 {
            ErrorCode::MethodNotFound
        } else if code == -32602 {
            ErrorCode::InvalidParams
        } else if code == -32603 {
            ErrorCode::InternalError
        } else if code == -32800 {
            ErrorCode::RequestCancelled
        } else if code == -32801 {
            ErrorCode::ContentModified
        } else {
            ErrorCode::ServerError(code)
        }
    }

    /// Returns the integer error code value.
    pub fn code(&self) -> (n: i64)
        ensures
            n == self.number(),
    {
        match self {
            ErrorCode::ParseError => -32700,
            ErrorCode::InvalidRequest => -32600,
            ErrorCode::MethodNotFound => -32601,
            ErrorCode::InvalidParams => -32602,
            ErrorCode::InternalError => -32603,
            ErrorCode::RequestCancelled => -32800,
            ErrorCode::ContentModified => -32801,
            ErrorCode::ServerError(code) => *code,
        }
    }

    /// Returns a human-readable description of the error.
    pub fn description(&self) -> (s: &'static str)
        ensures
            s@ == match self {
                ErrorCode::ParseError => "Parse error"@,
                ErrorCode::InvalidRequest => "Invalid request"@,
                ErrorCode::MethodNotFound => "Method not found"@,
                ErrorCode::InvalidParams => "Invalid params"@,
                ErrorCode::InternalError => "Internal error"@,
                ErrorCode::RequestCancelled => "Canceled"@,
                ErrorCode::ContentModified => "Content modified"@,
                ErrorCode::ServerError(_) => "Server error"@,
            },
    {
        match self {
            ErrorCode::ParseError => "Parse error",
            ErrorCode::InvalidRequest => "Invalid request",
            ErrorCode::MethodNotFound => "Method not found",
            ErrorCode::InvalidParams => "Invalid params",
            ErrorCode::InternalError => "Internal error",
            ErrorCode::RequestCancelled => "Canceled",
            ErrorCode::ContentModified => "Content modified",
            ErrorCode::ServerError(_) => "Server error",
        }
    }
}

impl From<i64> for ErrorCode {
    fn from(code: i64) -> (c: ErrorCode) {
        if code == -32700 {
            ErrorCode::ParseError
        } else if code == -32600 {
            ErrorCode::InvalidRequest
        } else if code == -32601 {
            ErrorCode::MethodNotFound
        } else if code == -32602 {
            ErrorCode::InvalidParams
        } else if code == -32603 {
            ErrorCode::InternalError
        } else if code == -32800 {
            ErrorCode::RequestCancelled
        } else if code == -32801 {
            ErrorCode::ContentModified
        } else {
            ErrorCode::ServerError(code)
        }
    }
}

impl vstd::std_specs::convert::FromSpecImpl<i64> for ErrorCode {
    open spec fn obeys_from_spec() -> bool {
        true
    }

    open spec fn from_spec(code: i64) -> ErrorCode {
        ErrorCode::of_number(code)
    }
}

/// Reading a code's number back gives the number: every `i64` is the number
/// of exactly the code it is read as.
pub proof fn lemma_code_number_roundtrip(code: i64)
    ensures
        ErrorCode::of_number(code).number() == code,
{
}

/// A code's number reads back as the code, except for a server error that
/// carries a reserved number.
pub proof fn lemma_number_code_roundtrip(c: ErrorCode)
    requires
        !(c matches ErrorCode::ServerError(n) && (n == -32700 || n == -32600 || n == -32601 || n
            == -32602 || n == -32603 || n == -32800 || n == -32801)),
    ensures
        ErrorCode::of_number(c.number() as i64) == c,
{
}

/// A JSON-RPC error object.
#[derive(Debug, PartialEq, Clone)]
pub struct RpcError {
    /// A number indicating the error type that occurred.
    pub code: ErrorCode,
    /// A short description of the error.
    pub message: String,
    /// Additional information about the error, if any.
    pub data: Option<serde_json::Value>,
}

impl RpcError {
    /// This is the error of `code` as [`RpcError::new`] makes it: the code's
    /// description as the message, and no data.
    pub open spec fn is_standard(self, code: ErrorCode) -> bool {
        self.code == code && self.message@ == code.description_text() && self.data is None
    }

    /// This is the "server not initialized" error of
    /// [`not_initialized_error`].
    pub open spec fn is_not_initialized(self) -> bool {
        self.code == ErrorCode::ServerError(-32002i64) && self.message@ == "Server not initialized"@
            && self.data is None
    }

    /// Creates a new error from the given `ErrorCode`, with its description
    /// as the message.
    pub fn new(code: ErrorCode) -> (e: RpcError)
        ensures
            e.code == code,
            e.message@ == code.description_text(),
            e.data is None,
    {
        let text = code.description();
        RpcError { code, message: text.to_owned(), data: None }
    }

    /// Creates a new parse error (`-32700`).
    pub fn parse_error() -> (e: RpcError)
        ensures
            e.code == ErrorCode::ParseError,
            e.message@ == "Parse error"@,
            e.data is None,
    {
        RpcError::new(ErrorCode::ParseError)
    }

    /// Creates a new "invalid request" error (`-32600`).
    pub fn invalid_request() -> (e: RpcError)
        ensures
            e.code == ErrorCode::InvalidRequest,
            e.message@ == "Invalid request"@,
            e.data is None,
    {
        RpcError::new(ErrorCode::InvalidRequest)
    }

    /// Creates a new "method not found" error (`-32601`).
    pub fn method_not_found() -> (e: RpcError)
        ensures
            e.code == ErrorCode::MethodNotFound,
            e.message@ == "Method not found"@,
            e.data is None,
    {
        RpcError::new(ErrorCode::MethodNotFound)
    }

    /// Creates a new "invalid params" error (`-32602`) with the given message.
    pub fn invalid_params(message: String) -> (e: RpcError)
        ensures
            e.code == ErrorCode::InvalidParams,
            e.message == message,
            e.data is None,
    {
        RpcError { code: ErrorCode::InvalidParams, message, data: None }
    }

    /// Creates a new internal error (`-32603`).
    pub fn internal_error() -> (e: RpcError)
        ensures
            e.code == ErrorCode::InternalError,
            e.message@ == "Internal error"@,
            e.data is None,
    {
        RpcError::new(ErrorCode::InternalError)
    }

    /// Creates a new "request cancelled" error (`-32800`).
    pub fn request_cancelled() -> (e: RpcError)
        ensures
            e.code == ErrorCode::RequestCancelled,
            e.message@ == "Canceled"@,
            e.data is None,
    {
        RpcError::new(ErrorCode::RequestCancelled)
    }

    /// Creates a new "content modified" error (`-32801`).
    pub fn content_modified() -> (e: RpcError)
        ensures
            e.code == ErrorCode::ContentModified,
            e.message@ == "Content modified"@,
            e.data is None,
    {
        RpcError::new(ErrorCode::ContentModified)
    }
}

impl ErrorCode {
    pub open spec fn description_text(self) -> Seq<char> {
        match self {
            ErrorCode::ParseError => "Parse error"@,
            ErrorCode::InvalidRequest => "Invalid request"@,
            ErrorCode::MethodNotFound => "Method not found"@,
            ErrorCode::InvalidParams => "Invalid params"@,
            ErrorCode::InternalError => "Internal error"@,
            ErrorCode::RequestCancelled => "Canceled"@,
            ErrorCode::ContentModified => "Content modified"@,
            ErrorCode::ServerError(_) => "Server error"@,
        }
    }
}

/// RpcError response returned for every request received before the server is
/// initialized (server error `-32002`).
pub fn not_initialized_error() -> (e: RpcError)
    ensures
        e.code == ErrorCode::ServerError(-32002i64),
        e.message@ == "Server not initialized"@,
        e.data is None,
{
    RpcError { code: ErrorCode::ServerError(-32002), message: "Server not initialized".to_owned(), data: None }
}

} // verus!
