//! Tables of pending JSON-RPC requests: the server's requests in progress,
//! which can be cancelled, and the client's responses still awaited.

use dashmap::DashMap;
use futures::channel::oneshot::Sender;
use futures::future::AbortHandle;
use vstd::prelude::*;

use super::{Id, Response, RpcError};

verus! {

#[verifier::external_type_specification]
#[verifier::external_body]
#[verifier::reject_recursive_types(K)]
#[verifier::reject_recursive_types(V)]
#[verifier::reject_recursive_types(S)]
pub struct ExDashMap<K, V, S>(dashmap::DashMap<K, V, S>);

#[verifier::external_type_specification]
#[verifier::external_body]
pub struct ExAbortHandle(futures::future::AbortHandle);

#[verifier::external_type_specification]
#[verifier::external_body]
#[verifier::reject_recursive_types(T)]
pub struct ExSender<T>(futures::channel::oneshot::Sender<T>);

/// The requests whose handlers are running, as a map from request ID to the
/// handle that aborts the handler.
pub uninterp spec fn running_handles(m: DashMap<Id, AbortHandle>) -> Map<Id, AbortHandle>;

/// `DashMap::new`: an empty table.
#[verifier::external_body]
pub(crate) fn running_new() -> (m: DashMap<Id, AbortHandle>)
    ensures
        running_handles(m).dom() == Set::<Id>::empty(),
{
    DashMap::new()
}

/// `DashMap::contains_key`. The table compares IDs by their derived `Eq`
/// and `Hash`, which follow the ID's structure.
#[verifier::external_body]
pub(crate) fn running_contains(m: &DashMap<Id, AbortHandle>, id: &Id) -> (b: bool)
    ensures
        b == running_handles(*m).contains_key(*id),
{
    m.contains_key(id)
}

/// `DashMap::insert`: records `handle` under `id`.
#[verifier::external_body]
pub(crate) fn running_insert(m: &mut DashMap<Id, AbortHandle>, id: Id, handle: AbortHandle)
    ensures
        running_handles(*final(m)) == running_handles(*old(m)).insert(id, handle),
{
    m.insert(id, handle);
}

/// `DashMap::remove`: takes the entry of `id` out of the table and hands
/// back its abort handle, if there was one.
#[verifier::external_body]
pub(crate) fn running_remove(m: &mut DashMap<Id, AbortHandle>, id: &Id) -> (h: Option<AbortHandle>)
    ensures
        running_handles(*final(m)) == running_handles(*old(m)).remove(*id),
        match h {
            Some(x) => running_handles(*old(m)).contains_key(*id) && running_handles(*old(m))[*id]
                == x,
            None => !running_handles(*old(m)).contains_key(*id),
        },
{
    m.remove(id).map(|(_, h)| h)
}

/// The IDs in the table, each once (`DashMap::iter`, cloning each key).
#[verifier::external_body]
pub(crate) fn running_keys(m: &DashMap<Id, AbortHandle>) -> (ks: Vec<Id>)
    ensures
        ks@.to_set() == running_handles(*m).dom(),
        ks@.no_duplicates(),
{
    m.iter().map(|entry| entry.key().clone()).collect()
}

/// Takes every handle out of the table, leaving it empty, and hands them
/// back: each handle that the table held is among those returned, and
/// nothing else is.
pub(crate) fn take_every(m: &mut DashMap<Id, AbortHandle>) -> (hs: Vec<AbortHandle>)
    ensures
        running_handles(*final(m)).dom() == Set::<Id>::empty(),
        hs@.to_set() == running_handles(*old(m)).values(),
{
    let ghost start = running_handles(*m);
    let keys = running_keys(m);
    let mut hs: Vec<AbortHandle> = Vec::new();
    let mut i: usize = 0;
    while i < keys.len()
        invariant
            i <= keys@.len(),
            keys@.no_duplicates(),
            keys@.to_set() == start.dom(),
            running_handles(*m) == start.remove_keys(keys@.take(i as int).to_set()),
            hs@.len() == i,
            forall|j: int| 0 <= j < i ==> #[trigger] hs@[j] == start[keys@[j]],
        decreases keys.len() - i,
    {
        let ghost before = running_handles(*m);
        proof {
            broadcast use vstd::seq_lib::group_seq_properties;
            assert(keys@.to_set().contains(keys@[i as int]));
            assert(!keys@.take(i as int).contains(keys@[i as int]));
            assert(before.contains_key(keys@[i as int]));
        }
        let h = running_remove(m, &keys[i]);
        match h {
            Some(x) => {
                hs.push(x);
            },
            None => {
                proof {
                    assert(false);
                }
            },
        }
        proof {
            broadcast use vstd::seq_lib::group_seq_properties;
            assert(keys@.take(i + 1) =~= keys@.take(i as int).push(keys@[i as int]));
            assert(keys@.take(i + 1).to_set() =~= keys@.take(i as int).to_set().insert(
                keys@[i as int],
            ));
            assert(running_handles(*m) =~= start.remove_keys(keys@.take(i + 1).to_set()));
        }
        i = i + 1;
    }
    proof {
        broadcast use vstd::seq_lib::group_seq_properties;
        assert(keys@.take(keys@.len() as int) =~= keys@);
        assert(running_handles(*m).dom() =~= Set::<Id>::empty());
        assert forall|v: AbortHandle| hs@.to_set().contains(v) <==> start.values().contains(v) by {
            if hs@.to_set().contains(v) {
                let j = choose|j: int| 0 <= j < hs@.len() && hs@[j] == v;
                assert(keys@.to_set().contains(keys@[j]));
                assert(start.dom().contains(keys@[j]) && start[keys@[j]] == v);
            }
            if start.values().contains(v) {
                let k = choose|k: Id| start.dom().contains(k) && start[k] == v;
                assert(keys@.to_set().contains(k));
                let j = choose|j: int| 0 <= j < keys@.len() && keys@[j] == k;
                assert(hs@[j] == v);
                assert(hs@.contains(v));
            }
        }
        assert(hs@.to_set() =~= start.values());
    }
    hs
}

/// A table of pending server requests, keyed by request ID.
pub struct ServerRequests {
    running: DashMap<Id, AbortHandle>,
}

impl ServerRequests {
    /// The running handlers, by request ID, with the handle that aborts each.
    pub closed spec fn handles(&self) -> Map<Id, AbortHandle> {
        running_handles(self.running)
    }

    /// The IDs of the requests whose handlers are running.
    pub open spec fn ids(&self) -> Set<Id> {
        self.handles().dom()
    }

    /// Creates a new pending server requests table.
    pub fn new() -> (t: Self)
        ensures
            t.ids() == Set::<Id>::empty(),
    {
        ServerRequests { running: running_new() }
    }

    /// Whether a handler for `id` is running.
    pub fn is_running(&self, id: &Id) -> (b: bool)
        ensures
            b == self.ids().contains(*id),
    {
        running_contains(&self.running, id)
    }

    /// Records the handler of `id`, started with the abort handle `handle`.
    /// A second request with an ID that is still running is not started: it
    /// is answered with [`duplicate_request_response`].
    pub fn start(&mut self, id: Id, handle: AbortHandle)
        requires
            !old(self).ids().contains(id),
        ensures
            final(self).handles() == old(self).handles().insert(id, handle),
    {
        running_insert(&mut self.running, id, handle)
    }

    /// Starts a request with ID `id` whose handler can be aborted with
    /// `handle`: while a handler with that ID is still running, the request
    /// is answered at once with [`duplicate_request_response`] and the table
    /// is left as it is; otherwise the handler is recorded and `None` is
    /// returned.
    pub fn try_start(&mut self, id: Id, handle: AbortHandle) -> (r: Option<Response>)
        ensures
            old(self).ids().contains(id) ==> final(self).handles() == old(self).handles() && (r matches Some(
                resp,
            ) && resp.id_of() == id && (resp.body() matches Err(e) && e.is_standard(
                super::ErrorCode::InvalidRequest,
            ))),
            !old(self).ids().contains(id) ==> final(self).handles() == old(self).handles().insert(
                id,
                handle,
            ) && r is None,
    {
        if self.is_running(&id) {
            Some(duplicate_request_response(id))
        } else {
            self.start(id, handle);
            None
        }
    }

    /// Forgets the handler of `id` once it has finished.
    pub fn finish(&mut self, id: &Id)
        ensures
            final(self).handles() == old(self).handles().remove(*id),
    {
        let _ = running_remove(&mut self.running, id);
    }

    /// Cancels the running request handler corresponding to this ID: takes
    /// it out of the table and hands back the handle that aborts it, which
    /// the caller aborts so that the handler resolves to a "canceled" error
    /// response. If the handler has already completed, nothing happens and
    /// `None` is returned.
    pub fn cancel(&mut self, id: &Id) -> (h: Option<AbortHandle>)
        ensures
            final(self).handles() == old(self).handles().remove(*id),
            match h {
                Some(x) => old(self).handles().contains_key(*id) && x == old(self).handles()[*id],
                None => !old(self).handles().contains_key(*id),
            },
    {
        running_remove(&mut self.running, id)
    }

    /// Cancels all pending request handlers: empties the table and hands
    /// back every handle it held, for the caller to abort.
    pub fn cancel_all(&mut self) -> (hs: Vec<AbortHandle>)
        ensures
            final(self).ids() == Set::<Id>::empty(),
            hs@.to_set() == old(self).handles().values(),
    {
        take_every(&mut self.running)
    }

    /// The IDs of the running handlers, each once.
    pub fn running(&self) -> (ks: Vec<Id>)
        ensures
            ks@.to_set() == self.ids(),
            ks@.no_duplicates(),
    {
        running_keys(&self.running)
    }
}

/// The answer to a request whose ID belongs to a request still running:
/// an "invalid request" error.
pub fn duplicate_request_response(id: Id) -> (r: Response)
    ensures
        r.id_of() == id,
        r.body() matches Err(e) && e.is_standard(super::ErrorCode::InvalidRequest),
{
    Response::from_error(id, RpcError::invalid_request())
}

/// The response of a request handler that ran under ID `id`: its result or
/// error, or, when it was cancelled before finishing (`None`), a "request
/// cancelled" error.
pub fn execute_response(id: Id, outcome: Option<Result<serde_json::Value, RpcError>>) -> (r: Response)
    ensures
        r.id_of() == id,
        match outcome {
            Some(body) => r.body() == body,
            None => r.body() matches Err(e) && e.is_standard(super::ErrorCode::RequestCancelled),
        },
{
    match outcome {
        Some(body) => Response::from_parts(id, body),
        None => Response::from_error(id, RpcError::request_cancelled()),
    }
}

/// A table of channels, by request ID.
pub type ResponseTable = DashMap<Id, Sender<Response>>;

/// The channels awaiting the client's responses, by request ID.
pub uninterp spec fn awaited(m: ResponseTable) -> Map<Id, Sender<Response>>;

/// `DashMap::new`: an empty table.
#[verifier::external_body]
fn awaited_new() -> (m: ResponseTable)
    ensures
        awaited(m).dom() == Set::<Id>::empty(),
{
    DashMap::new()
}

/// `DashMap::contains_key`, comparing IDs by their derived `Eq` and `Hash`.
#[verifier::external_body]
fn awaited_contains(m: &ResponseTable, id: &Id) -> (b: bool)
    ensures
        b == awaited(*m).contains_key(*id),
{
    m.contains_key(id)
}

/// `DashMap::insert` of an ID that the table does not hold.
#[verifier::external_body]
fn awaited_insert(m: &mut ResponseTable, id: Id, tx: Sender<Response>)
    ensures
        awaited(*final(m)) == awaited(*old(m)).insert(id, tx),
{
    m.insert(id, tx);
}

/// `DashMap::remove`: takes the channel of `id` out of the table.
#[verifier::external_body]
fn awaited_remove(m: &mut ResponseTable, id: &Id) -> (tx: Option<Sender<Response>>)
    ensures
        awaited(*final(m)) == awaited(*old(m)).remove(*id),
        match tx {
            Some(t) => awaited(*old(m)).contains_key(*id) && awaited(*old(m))[*id] == t,
            None => !awaited(*old(m)).contains_key(*id),
        },
{
    m.remove(id).map(|(_, tx)| tx)
}

/// What becomes of a response from the client.
#[derive(Debug)]
pub enum Delivery {
    /// Send `response` on the channel `to`, which awaited it.
    Deliver { to: Sender<Response>, response: Response },
    /// Its ID is `null`, so it matches no request.
    NullId,
    /// No request awaits a response with its ID.
    UnknownId,
}

/// A table of pending client requests, keyed by request ID.
pub struct ClientRequests {
    awaiting: ResponseTable,
}

impl ClientRequests {
    /// The requests that await a response, with the channel each listens on.
    pub closed spec fn waiting(&self) -> Map<Id, Sender<Response>> {
        awaited(self.awaiting)
    }

    /// Creates a new pending client requests table.
    pub fn new() -> (t: Self)
        ensures
            t.waiting().dom() == Set::<Id>::empty(),
    {
        ClientRequests { awaiting: awaited_new() }
    }

    /// Whether a request with this ID awaits its response.
    pub fn is_waiting(&self, id: &Id) -> (b: bool)
        ensures
            b == self.waiting().contains_key(*id),
    {
        awaited_contains(&self.awaiting, id)
    }

    /// Inserts the given response into the table: the request that awaits
    /// its ID no longer waits, and the response is handed back together with
    /// that request's channel, to be sent on it.
    pub fn insert(&mut self, r: Response) -> (d: Delivery)
        ensures
            d is NullId <==> r.id_of() == Id::Null,
            r.id_of() == Id::Null ==> final(self).waiting() == old(self).waiting(),
            r.id_of() != Id::Null ==> final(self).waiting() == old(self).waiting().remove(r.id_of()),
            r.id_of() != Id::Null && !old(self).waiting().contains_key(r.id_of()) ==> d is UnknownId,
            r.id_of() != Id::Null && old(self).waiting().contains_key(r.id_of()) ==> (d matches Delivery::Deliver {
                to,
                response,
            } && to == old(self).waiting()[r.id_of()] && response == r),
    {
        let id = r.id().clone();
        match id {
            Id::Null => Delivery::NullId,
            _ => match awaited_remove(&mut self.awaiting, &id) {
                None => Delivery::UnknownId,
                Some(tx) => Delivery::Deliver { to: tx, response: r },
            },
        }
    }

    /// Marks the given request ID as pending: the response with that ID
    /// will be handed to `tx`.
    ///
    /// A request ID must not be awaited twice at once, which monotonically
    /// increasing request IDs ensure.
    pub fn wait(&mut self, id: Id, tx: Sender<Response>)
        requires
            !old(self).waiting().contains_key(id),
        ensures
            final(self).waiting() == old(self).waiting().insert(id, tx),
    {
        awaited_insert(&mut self.awaiting, id, tx)
    }
}

} // verus!
