//! The rules by which the delegate between the JSON-RPC interface and the
//! language server admits requests and notifications.

use vstd::prelude::*;

use crate::jsonrpc::router::json_string;
use crate::jsonrpc::{not_initialized_error, ErrorCode, RpcError};

verus! {

/// The parameters that a request handler receives, from whether the server
/// is initialized and what reading the parameters gave (the value, or the
/// details of the failure): before initialization every request fails with
/// the "server not initialized" error; unreadable parameters are an
/// "invalid params" error carrying the details as its `data`.
pub fn request_params<P>(initialized: bool, parsed: Result<P, String>) -> (r: Result<P, RpcError>)
    ensures
        !initialized ==> (r matches Err(e) && e.is_not_initialized()),
        initialized ==> match parsed {
            Ok(p) => r == Ok::<P, RpcError>(p),
            Err(details) => r matches Err(e) && e.code == ErrorCode::InvalidParams && e.message@
                == "invalid parameters"@ && (e.data matches Some(d)
                && crate::jsonrpc::router::json_str_of(d) == Some(details@)),
        },
{
    if !initialized {
        return Err(not_initialized_error());
    }
    match parsed {
        Ok(p) => Ok(p),
        Err(details) => {
            let mut e = RpcError::invalid_params("invalid parameters".to_owned());
            e.data = Some(json_string(details));
            Err(e)
        },
    }
}

/// Whether a notification reaches the server: only once it is initialized,
/// and only with readable parameters.
pub fn notification_delivered(initialized: bool, params_readable: bool) -> (b: bool)
    ensures
        b == (initialized && params_readable),
{
    initialized && params_readable
}

/// Whether the `shutdown` request reaches the server: only once it is
/// initialized; before, it fails with the "server not initialized" error.
pub fn shutdown_admitted(initialized: bool) -> (r: Result<(), RpcError>)
    ensures
        initialized <==> r is Ok,
        r matches Err(e) ==> e.is_not_initialized(),
{
    if initialized {
        Ok(())
    } else {
        Err(not_initialized_error())
    }
}

} // verus!
