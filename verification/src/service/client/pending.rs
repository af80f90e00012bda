//! The server-to-client requests that await the client's response.
//!
//! Several requests may wait on one ID; responses with that ID are handed
//! to them first come, first served.

use dashmap::DashMap;
use futures::channel::oneshot::Sender;
use vstd::prelude::*;

use crate::jsonrpc::pending::Delivery;
use crate::jsonrpc::{Id, Response};

verus! {

/// A table of the queues of channels waiting for a response, by request ID.
pub type WaiterTable = DashMap<Id, Vec<Sender<Response>>>;

/// The queues of channels waiting for a response, by request ID, first
/// waiter first.
pub uninterp spec fn queues(m: WaiterTable) -> Map<Id, Seq<Sender<Response>>>;

/// `DashMap::new`: an empty table.
#[verifier::external_body]
fn queues_new() -> (m: WaiterTable)
    ensures
        queues(m).dom() == Set::<Id>::empty(),
{
    DashMap::new()
}

/// `DashMap::insert` of an ID that the table does not hold. IDs are compared
/// by their derived `Eq` and `Hash`, which follow the ID's structure.
#[verifier::external_body]
fn queues_insert(m: &mut WaiterTable, id: Id, q: Vec<Sender<Response>>)
    ensures
        queues(*final(m)) == queues(*old(m)).insert(id, q@),
{
    m.insert(id, q);
}

/// `DashMap::remove`: takes the queue of `id` out of the table.
#[verifier::external_body]
fn queues_remove(m: &mut WaiterTable, id: &Id) -> (q: Option<Vec<Sender<Response>>>)
    ensures
        queues(*final(m)) == queues(*old(m)).remove(*id),
        match q {
            Some(v) => queues(*old(m)).contains_key(*id) && queues(*old(m))[*id] == v@,
            None => !queues(*old(m)).contains_key(*id),
        },
{
    m.remove(id).map(|(_, q)| q)
}

/// The queues after a waiter `tx` joins the back of the queue of `id`.
pub open spec fn enqueued<T>(m: Map<Id, Seq<T>>, id: Id, tx: T) -> Map<Id, Seq<T>> {
    m.insert(
        id,
        if m.contains_key(id) {
            m[id]
        } else {
            Seq::empty()
        }.push(tx),
    )
}

/// The queues after the first waiter of `id` leaves; an emptied queue
/// leaves the table.
pub open spec fn dequeued<T>(m: Map<Id, Seq<T>>, id: Id) -> Map<Id, Seq<T>> {
    if m[id].len() <= 1 {
        m.remove(id)
    } else {
        m.insert(id, m[id].drop_first())
    }
}

/// Every queue in the table holds at least one waiter.
pub open spec fn queues_nonempty<T>(m: Map<Id, Seq<T>>) -> bool {
    forall|k: Id| #[trigger] m.contains_key(k) ==> m[k].len() > 0
}

/// A table containing pending client requests, keyed by request ID.
pub struct Pending {
    waiters: WaiterTable,
}

impl Pending {
    /// The queue of channels waiting on each ID.
    pub closed spec fn waiting(&self) -> Map<Id, Seq<Sender<Response>>> {
        queues(self.waiters)
    }

    /// No ID is left with an empty queue.
    pub open spec fn well_formed(&self) -> bool {
        queues_nonempty(self.waiting())
    }

    /// Creates a new pending client requests table.
    pub fn new() -> (t: Self)
        ensures
            t.waiting().dom() == Set::<Id>::empty(),
            t.well_formed(),
    {
        Pending { waiters: queues_new() }
    }

    /// Takes the first waiter for `id` off its queue, if any waits.
    pub fn take_waiter(&mut self, id: &Id) -> (tx: Option<Sender<Response>>)
        requires
            old(self).well_formed(),
        ensures
            final(self).well_formed(),
            match tx {
                Some(t) => old(self).waiting().contains_key(*id) && t == old(self).waiting()[*id][0]
                    && final(self).waiting() == dequeued(old(self).waiting(), *id),
                None => !old(self).waiting().contains_key(*id)
                    && final(self).waiting() == old(self).waiting(),
            },
    {
        match queues_remove(&mut self.waiters, id) {
            None => {
                assert(self.waiting() =~= old(self).waiting());
                None
            },
            Some(mut q) => {
                let tx = q.remove(0);
                if q.len() > 0 {
                    queues_insert(&mut self.waiters, id.clone(), q);
                }
                assert(self.waiting() =~= dequeued(old(self).waiting(), *id));
                Some(tx)
            },
        }
    }

    /// Inserts the given response into the table: the first request still
    /// waiting on its ID no longer waits, and the response is handed back
    /// together with that request's channel, to be sent on it.
    pub fn insert(&mut self, r: Response) -> (d: Delivery)
        requires
            old(self).well_formed(),
        ensures
            final(self).well_formed(),
            d is NullId <==> r.id_of() == Id::Null,
            r.id_of() == Id::Null ==> final(self).waiting() == old(self).waiting(),
            r.id_of() != Id::Null && !old(self).waiting().contains_key(r.id_of()) ==> d is UnknownId
                && final(self).waiting() == old(self).waiting(),
            r.id_of() != Id::Null && old(self).waiting().contains_key(r.id_of())
                ==> final(self).waiting() == dequeued(old(self).waiting(), r.id_of()) && (d matches Delivery::Deliver {
                to,
                response,
            } && to == old(self).waiting()[r.id_of()][0] && response == r),
    {
        let id = r.id().clone();
        match id {
            Id::Null => Delivery::NullId,
            _ => match self.take_waiter(&id) {
                None => Delivery::UnknownId,
                Some(tx) => Delivery::Deliver { to: tx, response: r },
            },
        }
    }

    /// Marks the given request ID as pending: `tx` joins the back of the
    /// queue of channels waiting for the response with that ID.
    pub fn wait(&mut self, id: Id, tx: Sender<Response>)
        requires
            old(self).well_formed(),
        ensures
            final(self).well_formed(),
            final(self).waiting() == enqueued(old(self).waiting(), id, tx),
    {
        let mut q = match queues_remove(&mut self.waiters, &id) {
            Some(q) => q,
            None => Vec::new(),
        };
        q.push(tx);
        queues_insert(&mut self.waiters, id, q);
        assert(self.waiting() =~= enqueued(old(self).waiting(), id, tx));
    }
}

/// Responses are routed first come, first served: when two waiters join
/// the queue of an ID that nobody waited on, the first response goes to the
/// first waiter, the second to the second, and then nobody waits on the ID.
pub proof fn lemma_fifo_routing<T>(m: Map<Id, Seq<T>>, id: Id, first: T, second: T)
    requires
        !m.contains_key(id),
    ensures
        ({
            let both = enqueued(enqueued(m, id, first), id, second);
            &&& both[id][0] == first
            &&& dequeued(both, id)[id][0] == second
            &&& dequeued(dequeued(both, id), id) == m
        }),
{
    let both = enqueued(enqueued(m, id, first), id, second);
    assert(both[id] =~= seq![first, second]);
    assert(dequeued(both, id)[id] =~= seq![second]);
    assert(dequeued(dequeued(both, id), id) =~= m);
}

/// The queues after `k` responses with ID `id` were handed out.
pub open spec fn dequeued_times<T>(m: Map<Id, Seq<T>>, id: Id, k: nat) -> Map<Id, Seq<T>>
    decreases k,
{
    if k == 0 {
        m
    } else {
        dequeued(dequeued_times(m, id, (k - 1) as nat), id)
    }
}

/// The queues after the waiters `ws` joined the queue of `id`, in order.
pub open spec fn enqueued_all<T>(m: Map<Id, Seq<T>>, id: Id, ws: Seq<T>) -> Map<Id, Seq<T>>
    decreases ws.len(),
{
    if ws.len() == 0 {
        m
    } else {
        enqueued(enqueued_all(m, id, ws.drop_last()), id, ws.last())
    }
}

proof fn lemma_enqueued_all<T>(m: Map<Id, Seq<T>>, id: Id, ws: Seq<T>)
    requires
        !m.contains_key(id),
        ws.len() > 0,
    ensures
        enqueued_all(m, id, ws).contains_key(id),
        enqueued_all(m, id, ws)[id] == ws,
        enqueued_all(m, id, ws).remove(id) == m,
    decreases ws.len(),
{
    let e = enqueued_all(m, id, ws);
    if ws.len() == 1 {
        assert(ws.drop_last() =~= Seq::<T>::empty());
        assert(enqueued_all(m, id, ws.drop_last()) == m);
        assert(e == enqueued(m, id, ws.last()));
        assert(e[id] =~= ws);
        assert(e.remove(id) =~= m);
    } else {
        lemma_enqueued_all(m, id, ws.drop_last());
        let p = enqueued_all(m, id, ws.drop_last());
        assert(e[id] =~= ws);
        assert(e.remove(id) =~= p.remove(id));
    }
}

proof fn lemma_dequeued_times<T>(m: Map<Id, Seq<T>>, id: Id, k: nat)
    requires
        m.contains_key(id),
        m[id].len() > 0,
        k <= m[id].len(),
    ensures
        k < m[id].len() ==> dequeued_times(m, id, k).contains_key(id) && dequeued_times(m, id, k)[id]
            == m[id].skip(k as int),
        dequeued_times(m, id, k).remove(id) == m.remove(id),
        k == m[id].len() ==> dequeued_times(m, id, k) == m.remove(id),
    decreases k,
{
    if k == 0 {
        assert(m[id].skip(0) =~= m[id]);
    } else {
        lemma_dequeued_times(m, id, (k - 1) as nat);
        let p = dequeued_times(m, id, (k - 1) as nat);
        let d = dequeued_times(m, id, k);
        assert(p[id] == m[id].skip(k - 1));
        if k < m[id].len() {
            assert(d[id] =~= m[id].skip(k as int));
            assert(d.remove(id) =~= p.remove(id));
        } else {
            assert(d =~= p.remove(id));
            assert(d.remove(id) =~= p.remove(id));
        }
    }
}

/// Responses are routed first come, first served, however many wait: when
/// the waiters `ws` join, in order, the queue of an ID that nobody waited
/// on, the response handed out after `k` others with that ID goes to the
/// waiter `ws[k]`, and once every waiter was served nobody waits on the ID
/// and the other queues are as they were.
pub proof fn lemma_fifo_routing_all<T>(m: Map<Id, Seq<T>>, id: Id, ws: Seq<T>, k: nat)
    requires
        !m.contains_key(id),
        k < ws.len(),
    ensures
        ({
            let all = enqueued_all(m, id, ws);
            &&& dequeued_times(all, id, k).contains_key(id)
            &&& dequeued_times(all, id, k)[id][0] == ws[k as int]
            &&& dequeued_times(all, id, ws.len()) == m
        }),
{
    let all = enqueued_all(m, id, ws);
    lemma_enqueued_all(m, id, ws);
    lemma_dequeued_times(all, id, k);
    lemma_dequeued_times(all, id, ws.len());
}

} // verus!
