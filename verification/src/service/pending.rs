//! The client-to-server requests whose handlers are running, which the
//! client can cancel.

use dashmap::DashMap;
use futures::future::AbortHandle;
use vstd::prelude::*;

use super::ExitedError;
use crate::jsonrpc::pending::{
    running_contains, running_handles, running_insert, running_keys, running_new, running_remove,
    take_every,
};
use crate::jsonrpc::{ErrorCode, Id, Response, RpcError};

verus! {

/// A table of pending server requests, keyed by request ID.
pub struct Pending {
    running: DashMap<Id, AbortHandle>,
}

impl Pending {
    /// The running handlers, by request ID, with the handle that aborts each.
    pub closed spec fn handles(&self) -> Map<Id, AbortHandle> {
        running_handles(self.running)
    }

    /// The IDs of the requests whose handlers are running.
    pub open spec fn ids(&self) -> Set<Id> {
        self.handles().dom()
    }

    /// Creates a new pending server requests table.
    pub fn new() -> (t: Self)
        ensures
            t.ids() == Set::<Id>::empty(),
    {
        Pending { running: running_new() }
    }

    /// Whether a handler for `id` is running.
    pub fn is_running(&self, id: &Id) -> (b: bool)
        ensures
            b == self.ids().contains(*id),
    {
        running_contains(&self.running, id)
    }

    /// Records the handler of `id`, started with the abort handle `handle`.
    pub fn start(&mut self, id: Id, handle: AbortHandle)
        requires
            !old(self).ids().contains(id),
        ensures
            final(self).handles() == old(self).handles().insert(id, handle),
    {
        running_insert(&mut self.running, id, handle)
    }

    /// Starts a request with ID `id` whose handler can be aborted with
    /// `handle`: while a handler with that ID is still running, the request
    /// is answered at once with [`duplicate_response`] and the table is left
    /// as it is; otherwise the handler is recorded and `None` is returned.
    pub fn try_start(&mut self, id: Id, handle: AbortHandle) -> (r: Option<
        Result<Option<Response>, ExitedError>,
    >)
        ensures
            old(self).ids().contains(id) ==> final(self).handles() == old(self).handles() && (r matches Some(
                Ok(Some(resp)),
            ) && resp.id_of() == id && (resp.body() matches Err(e) && e.is_standard(
                ErrorCode::InvalidRequest,
            ))),
            !old(self).ids().contains(id) ==> final(self).handles() == old(self).handles().insert(
                id,
                handle,
            ) && r is None,
    {
        if self.is_running(&id) {
            Some(duplicate_response(id))
        } else {
            self.start(id, handle);
            None
        }
    }

    /// Forgets the handler of `id` once it has finished.
    pub fn finish(&mut self, id: &Id)
        ensures
            final(self).handles() == old(self).handles().remove(*id),
    {
        let _ = running_remove(&mut self.running, id);
    }

    /// Cancels the running request handler corresponding to this ID: takes
    /// it out of the table and hands back the handle that aborts it, which
    /// the caller aborts so that the handler resolves to a "canceled" error
    /// response. If the handler has already completed, nothing happens and
    /// `None` is returned.
    pub fn cancel(&mut self, id: &Id) -> (h: Option<AbortHandle>)
        ensures
            final(self).handles() == old(self).handles().remove(*id),
            match h {
                Some(x) => old(self).handles().contains_key(*id) && x == old(self).handles()[*id],
                None => !old(self).handles().contains_key(*id),
            },
    {
        running_remove(&mut self.running, id)
    }

    /// Cancels all pending request handlers: empties the table and hands
    /// back every handle it held, for the caller to abort.
    pub fn cancel_all(&mut self) -> (hs: Vec<AbortHandle>)
        ensures
            final(self).ids() == Set::<Id>::empty(),
            hs@.to_set() == old(self).handles().values(),
    {
        take_every(&mut self.running)
    }

    /// The IDs of the running handlers, each once.
    pub fn running(&self) -> (ks: Vec<Id>)
        ensures
            ks@.to_set() == self.ids(),
            ks@.no_duplicates(),
    {
        running_keys(&self.running)
    }
}

/// The answer to a request whose ID belongs to a request still running: an
/// "invalid request" error.
pub fn duplicate_response(id: Id) -> (r: Result<Option<Response>, ExitedError>)
    ensures
        r matches Ok(Some(resp)) && resp.id_of() == id && (resp.body() matches Err(e)
            && e.is_standard(ErrorCode::InvalidRequest)),
{
    Ok(Some(Response::from_error(id, RpcError::invalid_request())))
}

/// What a request handler that ran under ID `id` resolves to: its own
/// outcome, or, when it was cancelled before finishing (`None`), a "request
/// cancelled" error response.
pub fn execute_outcome(id: Id, outcome: Option<Result<Option<Response>, ExitedError>>) -> (r: Result<
    Option<Response>,
    ExitedError,
>)
    ensures
        match outcome {
            Some(o) => r == o,
            None => r matches Ok(Some(resp)) && resp.id_of() == id && (resp.body() matches Err(e)
                && e.is_standard(ErrorCode::RequestCancelled)),
        },
{
    match outcome {
        Some(o) => o,
        None => Ok(Some(Response::from_error(id, RpcError::request_cancelled()))),
    }
}

} // verus!
