use vstd::prelude::*;

use crate::connections::{endpoints_view, spec_connect, ConnectionSet, EndpointView};
use crate::types::ServerEndpoint;
use crate::command::{decode_reply, reply_result, Command, ResponseShape};
use crate::value::{result_matches, Error, ErrorKind, Frame, Value, ValueView};

verus! {

/// What the correlation table keeps of one request in flight: the reply
/// shape its command expects, and whether its caller has gone away.
#[derive(Debug, Clone, Copy, PartialEq, Eq, Structural)]
pub struct PendingEntry {
    pub expects: ResponseShape,
    pub abandoned: bool,
}

/// One request in flight, under the identifier it was given on submission.
#[derive(Debug, Clone, Copy)]
pub struct PendingRequest {
    pub id: u64,
    pub entry: PendingEntry,
}

/// The model of the correlation table: each pending identifier and its entry.
pub type PendingMap = Map<u64, PendingEntry>;

/// Whether a reply for `id` reaches a waiting caller.
pub open spec fn delivers(m: PendingMap, id: u64) -> bool {
    m.contains_key(id) && !m[id].abandoned
}

/// The table after the caller of `id` has gone away.
pub open spec fn spec_abandon(m: PendingMap, id: u64) -> PendingMap {
    if m.contains_key(id) {
        m.insert(id, PendingEntry { abandoned: true, ..m[id] })
    } else {
        m
    }
}

/// The table after the outcome for `id` has arrived.
pub open spec fn spec_deliver(m: PendingMap, id: u64) -> PendingMap {
    m.remove(id)
}

/// What the caller of a command expecting `shape` receives for a transport
/// outcome: the decoded reply, or the transport's own error.
pub open spec fn outcome_result(shape: ResponseShape, outcome: Result<Frame, Error>) -> Result<
    ValueView,
    ErrorKind,
> {
    match outcome {
        Ok(f) => reply_result(shape, f),
        Err(e) => Err(e.kind),
    }
}

/// The client side of the router: it hands out an identifier per submitted
/// command, and routes each outcome to the one caller waiting on it.
pub struct Gateway {
    alive: bool,
    next_id: u64,
    pending: Vec<PendingRequest>,
    model: Ghost<PendingMap>,
    servers: ConnectionSet,
}

impl Gateway {
    pub closed spec fn spec_alive(&self) -> bool {
        self.alive
    }

    pub closed spec fn spec_next_id(&self) -> u64 {
        self.next_id
    }

    /// The requests in flight.
    pub closed spec fn pending_map(&self) -> PendingMap {
        self.model@
    }

    /// The router's live connections.
    pub closed spec fn servers_view(&self) -> Seq<EndpointView> {
        self.servers@
    }

    pub closed spec fn wf(&self) -> bool {
        &&& self.servers.wf()
        &&& forall|j: int|
            0 <= j < self.pending@.len() ==> {
                &&& self.model@.contains_key(#[trigger] self.pending@[j].id)
                &&& self.model@[self.pending@[j].id] == self.pending@[j].entry
            }
        &&& forall|id: u64| #[trigger]
            self.model@.contains_key(id) ==> exists|j: int|
                0 <= j < self.pending@.len() && #[trigger] self.pending@[j].id == id
        &&& forall|i: int, j: int|
            0 <= i < j < self.pending@.len() ==> #[trigger] self.pending@[i].id
                != #[trigger] self.pending@[j].id
        &&& forall|id: u64| #[trigger] self.model@.contains_key(id) ==> id < self.next_id
    }

    /// A live gateway with nothing in flight.
    pub fn new() -> (r: Gateway)
        ensures
            r.wf(),
            r.spec_alive(),
            r.spec_next_id() == 0,
            r.pending_map() == PendingMap::empty(),
            r.servers_view() == Seq::<EndpointView>::empty(),
    {
        Gateway {
            alive: true,
            next_id: 0,
            pending: Vec::new(),
            model: Ghost(Map::empty()),
            servers: ConnectionSet::new(),
        }
    }

    pub fn is_alive(&self) -> (r: bool)
        ensures
            r == self.spec_alive(),
    {
        self.alive
    }

    /// Whether another identifier can be handed out.
    pub fn has_free_id(&self) -> (r: bool)
        ensures
            r == (self.spec_next_id() < u64::MAX),
    {
        self.next_id < u64::MAX
    }

    /// The number of requests in flight.
    pub fn pending_count(&self) -> (r: usize)
        requires
            self.wf(),
        ensures
            r == self.pending_map().len(),
    {
        proof { self.lemma_len(); }
        self.pending.len()
    }

    proof fn lemma_len(&self)
        requires
            self.wf(),
        ensures
            self.model@.len() == self.pending@.len(),
            self.model@.dom().finite(),
        decreases self.pending@.len(),
    {
        let ids = self.pending@.map_values(|p: PendingRequest| p.id);
        assert forall|i: int, j: int| 0 <= i < j < ids.len() implies ids[i] != ids[j] by {
            assert(self.pending@[i].id != self.pending@[j].id);
        }
        assert(ids.no_duplicates());
        assert(ids.to_set() =~= self.model@.dom()) by {
            assert forall|id: u64| ids.to_set().contains(id) implies self.model@.contains_key(id) by {
                let j = choose|j: int| 0 <= j < ids.len() && ids[j] == id;
                assert(self.model@.contains_key(self.pending@[j].id));
            }
            assert forall|id: u64| self.model@.contains_key(id) implies ids.to_set().contains(id) by {
                let j = choose|j: int| 0 <= j < self.pending@.len() && #[trigger] self.pending@[j].id == id;
                assert(ids[j] == id);
            }
        }
        ids.unique_seq_to_set();
    }

    /// Whether a request `id` is in flight.
    pub fn is_pending(&self, id: u64) -> (r: bool)
        requires
            self.wf(),
        ensures
            r == self.pending_map().contains_key(id),
    {
        match self.find(id) {
            Some(_) => true,
            None => false,
        }
    }

    fn find(&self, id: u64) -> (r: Option<usize>)
        requires
            self.wf(),
        ensures
            match r {
                Some(j) => j < self.pending@.len() && self.pending@[j as int].id == id,
                None => !self.model@.contains_key(id),
            },
    {
        let mut j: usize = 0;
        while j < self.pending.len()
            invariant
                j <= self.pending@.len(),
                forall|k: int| 0 <= k < j ==> #[trigger] self.pending@[k].id != id,
            decreases self.pending@.len() - j,
        {
            if self.pending[j].id == id {
                return Some(j);
            }
            j = j + 1;
        }
        None
    }

    /// Enqueues a command and returns the identifier its outcome will come
    /// back under. Fails at once, with a cancellation error, once the router
    /// has shut down.
    pub fn submit(&mut self, command: &Command) -> (r: Result<u64, Error>)
        requires
            old(self).wf(),
            command.wf(),
            old(self).spec_next_id() < u64::MAX,
        ensures
            final(self).wf(),
            final(self).spec_alive() == old(self).spec_alive(),
            final(self).servers_view() == old(self).servers_view(),
            !old(self).spec_alive() ==> {
                &&& r is Err
                &&& r->Err_0.kind == ErrorKind::Cancellation
                &&& final(self).pending_map() == old(self).pending_map()
                &&& final(self).spec_next_id() == old(self).spec_next_id()
            },
            old(self).spec_alive() ==> {
                &&& r == Ok::<u64, Error>(old(self).spec_next_id())
                &&& !old(self).pending_map().contains_key(r->Ok_0)
                &&& final(self).pending_map() == old(self).pending_map().insert(
                    r->Ok_0,
                    PendingEntry { expects: command.expects, abandoned: false },
                )
                &&& final(self).spec_next_id() == old(self).spec_next_id() + 1
            },
    {
        if !self.alive {
            return Err(Error::new(ErrorKind::Cancellation, "the router has shut down"));
        }
        let id = self.next_id;
        let entry = PendingEntry { expects: command.expects, abandoned: false };
        self.pending.push(PendingRequest { id, entry });
        self.model = Ghost(self.model@.insert(id, entry));
        self.next_id = self.next_id + 1;
        proof {
            let n = self.pending@.len() - 1;
            assert(self.pending@[n].id == id);
            assert forall|k: u64| #[trigger] self.model@.contains_key(k) implies exists|j: int|
                0 <= j < self.pending@.len() && #[trigger] self.pending@[j].id == k by {
                if k != id {
                    let j = choose|j: int| 0 <= j < old(self).pending@.len() && #[trigger] old(self).pending@[j].id == k;
                    assert(self.pending@[j].id == k);
                }
            }
        }
        Ok(id)
    }

    /// Records that the caller of `id` has gone away. A later outcome for
    /// `id` is then dropped, and no other request is touched.
    pub fn abandon(&mut self, id: u64)
        requires
            old(self).wf(),
        ensures
            final(self).wf(),
            final(self).spec_alive() == old(self).spec_alive(),
            final(self).servers_view() == old(self).servers_view(),
            final(self).spec_next_id() == old(self).spec_next_id(),
            final(self).pending_map() == spec_abandon(old(self).pending_map(), id),
    {
        match self.find(id) {
            Some(j) => {
                let mut p = self.pending[j];
                p.entry.abandoned = true;
                self.pending.set(j, p);
                self.model = Ghost(self.model@.insert(id, p.entry));
                proof {
                    assert forall|k: u64| #[trigger] self.model@.contains_key(k) implies exists|i: int|
                        0 <= i < self.pending@.len() && #[trigger] self.pending@[i].id == k by {
                        let i = choose|i: int| 0 <= i < old(self).pending@.len() && #[trigger] old(self).pending@[i].id == k;
                        assert(self.pending@[i].id == k);
                    }
                    assert(p.entry == PendingEntry { abandoned: true, ..old(self).model@[id] });
                }
            },
            None => {},
        }
    }

    /// Hands the transport's outcome for `id` on. The request leaves the
    /// table; `Some` carries what its caller receives, decoded as its
    /// command expects, and comes exactly when a caller still waits on `id`.
    pub fn deliver(&mut self, id: u64, outcome: Result<Frame, Error>) -> (r: Option<Result<Value, Error>>)
        requires
            old(self).wf(),
        ensures
            final(self).wf(),
            final(self).spec_alive() == old(self).spec_alive(),
            final(self).servers_view() == old(self).servers_view(),
            final(self).spec_next_id() == old(self).spec_next_id(),
            final(self).pending_map() == spec_deliver(old(self).pending_map(), id),
            r is Some <==> delivers(old(self).pending_map(), id),
            r is Some ==> result_matches(
                r->Some_0,
                outcome_result(old(self).pending_map()[id].expects, outcome),
            ),
    {
        match self.find(id) {
            Some(j) => {
                let p = self.pending.remove(j);
                self.model = Ghost(self.model@.remove(id));
                proof {
                    let o = old(self).pending@;
                    assert forall|a: int, b: int|
                        0 <= a < b < self.pending@.len() implies #[trigger] self.pending@[a].id
                        != #[trigger] self.pending@[b].id by {
                        let oa = if a < j { a } else { a + 1 };
                        let ob = if b < j { b } else { b + 1 };
                        assert(o[oa].id != o[ob].id);
                    }
                    assert forall|k: int| 0 <= k < self.pending@.len() implies {
                        &&& self.model@.contains_key(#[trigger] self.pending@[k].id)
                        &&& self.model@[self.pending@[k].id] == self.pending@[k].entry
                    } by {
                        let ok = if k < j { k } else { k + 1 };
                        assert(o[ok].id != o[j as int].id);
                    }
                    assert forall|k: u64| #[trigger] self.model@.contains_key(k) implies exists|i: int|
                        0 <= i < self.pending@.len() && #[trigger] self.pending@[i].id == k by {
                        let i = choose|i: int| 0 <= i < o.len() && #[trigger] o[i].id == k;
                        if i < j {
                            assert(self.pending@[i].id == k);
                        } else {
                            assert(self.pending@[i - 1].id == k);
                        }
                    }
                }
                if p.entry.abandoned {
                    None
                } else {
                    let decoded = match outcome {
                        Ok(frame) => decode_reply(p.entry.expects, frame),
                        Err(e) => Err(e),
                    };
                    Some(decoded)
                }
            },
            None => {
                assert(self.model@.remove(id) =~= self.model@);
                None
            },
        }
    }

    /// Records a connection that the router has established.
    pub fn connect(&mut self, server: ServerEndpoint) -> (r: bool)
        requires
            old(self).wf(),
        ensures
            final(self).wf(),
            final(self).spec_alive() == old(self).spec_alive(),
            final(self).spec_next_id() == old(self).spec_next_id(),
            final(self).pending_map() == old(self).pending_map(),
            r == !old(self).servers_view().contains(server@),
            final(self).servers_view() == spec_connect(old(self).servers_view(), server@),
    {
        self.servers.connect(server)
    }

    /// Records a connection that the router has closed.
    pub fn disconnect(&mut self, server: &ServerEndpoint) -> (r: bool)
        requires
            old(self).wf(),
        ensures
            final(self).wf(),
            final(self).spec_alive() == old(self).spec_alive(),
            final(self).spec_next_id() == old(self).spec_next_id(),
            final(self).pending_map() == old(self).pending_map(),
            r == old(self).servers_view().contains(server@),
            final(self).servers_view().to_set() == old(self).servers_view().to_set().remove(server@),
    {
        self.servers.disconnect(server)
    }

    /// Shuts the router down. Every request whose caller still waits is
    /// returned, to be answered with a cancellation error; the table is
    /// emptied, and later submissions fail.
    pub fn shutdown(&mut self) -> (r: Vec<u64>)
        requires
            old(self).wf(),
        ensures
            final(self).wf(),
            !final(self).spec_alive(),
            final(self).spec_next_id() == old(self).spec_next_id(),
            final(self).pending_map() == PendingMap::empty(),
            final(self).servers_view() == Seq::<EndpointView>::empty(),
            r@.no_duplicates(),
            forall|id: u64| r@.contains(id) <==> delivers(old(self).pending_map(), id),
    {
        let mut waiting: Vec<u64> = Vec::new();
        let mut j: usize = 0;
        while j < self.pending.len()
            invariant
                self.wf(),
                j <= self.pending@.len(),
                waiting@.no_duplicates(),
                forall|id: u64|
                    waiting@.contains(id) <==> exists|k: int|
                        0 <= k < j && #[trigger] self.pending@[k].id == id
                            && !self.pending@[k].entry.abandoned,
            decreases self.pending@.len() - j,
        {
            let p = self.pending[j];
            if !p.entry.abandoned {
                proof {
                    if waiting@.contains(p.id) {
                        let k = choose|k: int|
                            0 <= k < j && #[trigger] self.pending@[k].id == p.id
                                && !self.pending@[k].entry.abandoned;
                        assert(self.pending@[k].id != self.pending@[j as int].id);
                    }
                }
                let ghost before = waiting@;
                waiting.push(p.id);
                proof {
                    assert forall|id: u64| waiting@.contains(id) <==> (before.contains(id) || id == p.id) by {
                        if waiting@.contains(id) {
                            let w = choose|w: int| 0 <= w < waiting@.len() && waiting@[w] == id;
                            if w < before.len() {
                                assert(before[w] == id);
                            }
                        }
                        if before.contains(id) {
                            let w = choose|w: int| 0 <= w < before.len() && before[w] == id;
                            assert(waiting@[w] == id);
                        }
                        if id == p.id {
                            assert(waiting@[before.len() as int] == id);
                        }
                    }
                    assert forall|id: u64|
                        waiting@.contains(id) <==> exists|k: int|
                            0 <= k < j + 1 && #[trigger] self.pending@[k].id == id
                                && !self.pending@[k].entry.abandoned by {
                        if id == p.id {
                            assert(self.pending@[j as int].id == id);
                        }
                        if before.contains(id) {
                            let k = choose|k: int|
                                0 <= k < j && #[trigger] self.pending@[k].id == id
                                    && !self.pending@[k].entry.abandoned;
                            assert(self.pending@[k].id == id);
                        }
                        if exists|k: int|
                            0 <= k < j + 1 && #[trigger] self.pending@[k].id == id
                                && !self.pending@[k].entry.abandoned {
                            if id != p.id {
                                let k = choose|k: int|
                                    0 <= k < j + 1 && #[trigger] self.pending@[k].id == id
                                        && !self.pending@[k].entry.abandoned;
                                assert(k < j);
                            }
                        }
                    }
                }
            } else {
                proof {
                    assert forall|id: u64|
                        waiting@.contains(id) <==> exists|k: int|
                            0 <= k < j + 1 && #[trigger] self.pending@[k].id == id
                                && !self.pending@[k].entry.abandoned by {
                        if exists|k: int|
                            0 <= k < j + 1 && #[trigger] self.pending@[k].id == id
                                && !self.pending@[k].entry.abandoned {
                            let k = choose|k: int|
                                0 <= k < j + 1 && #[trigger] self.pending@[k].id == id
                                    && !self.pending@[k].entry.abandoned;
                            assert(k != j);
                        }
                    }
                }
            }
            j = j + 1;
        }
        proof {
            assert forall|id: u64| waiting@.contains(id) <==> delivers(self.model@, id) by {
                if delivers(self.model@, id) {
                    let k = choose|k: int| 0 <= k < self.pending@.len() && #[trigger] self.pending@[k].id == id;
                    assert(self.model@[self.pending@[k].id] == self.pending@[k].entry);
                }
                if waiting@.contains(id) {
                    let k = choose|k: int|
                        0 <= k < j && #[trigger] self.pending@[k].id == id
                            && !self.pending@[k].entry.abandoned;
                    assert(self.model@.contains_key(self.pending@[k].id));
                }
            }
        }
        self.alive = false;
        self.pending = Vec::new();
        self.model = Ghost(Map::empty());
        self.servers = ConnectionSet::new();
        waiting
    }
}

/// The router's live connections at the moment the query is serviced,
/// without waiting on any request in flight. Fails with a cancellation error
/// once the router has shut down.
pub fn active_connections(gateway: &Gateway) -> (r: Result<Vec<ServerEndpoint>, Error>)
    requires
        gateway.wf(),
    ensures
        gateway.spec_alive() <==> r is Ok,
        r is Ok ==> endpoints_view(r->Ok_0@) == gateway.servers_view(),
        r is Ok ==> endpoints_view(r->Ok_0@).no_duplicates(),
        r is Err ==> r->Err_0.kind == ErrorKind::Cancellation,
{
    if !gateway.alive {
        return Err(Error::new(ErrorKind::Cancellation, "the router has shut down"));
    }
    Ok(gateway.servers.snapshot())
}

/// A reply reaches its caller at most once: after the outcome for `id` has
/// been handed on, a second outcome for `id` reaches nobody. Requests other
/// than `id` stay in flight, with their entries unchanged, until their own
/// outcome arrives.
pub proof fn lemma_single_outcome(m: PendingMap, id: u64, other: u64)
    requires
        other != id,
    ensures
        !delivers(spec_deliver(m, id), id),
        !delivers(spec_deliver(spec_deliver(m, id), id), id),
        spec_deliver(m, id).contains_key(other) == m.contains_key(other),
        m.contains_key(other) ==> spec_deliver(m, id)[other] == m[other],
{
}

/// A submitted request stays in flight, with the entry it was given, through
/// any step that concerns another request, so its one outcome is still owed.
pub proof fn lemma_submitted_stays_pending(m: PendingMap, id: u64, e: PendingEntry, other: u64)
    requires
        !m.contains_key(id),
        other != id,
    ensures
        delivers(m.insert(id, e), id) == !e.abandoned,
        delivers(spec_deliver(m.insert(id, e), other), id) == !e.abandoned,
        delivers(spec_abandon(m.insert(id, e), other), id) == !e.abandoned,
        spec_abandon(m.insert(id, e), other)[id] == e,
        spec_deliver(m.insert(id, e), other)[id] == e,
{
}

/// Once the caller of `gone` has gone away, the outcome for `gone` reaches
/// nobody, and every other request is answered as before, decoded by its own
/// entry: no reply is matched to a request it was not sent for.
pub proof fn lemma_abandoned_isolated(m: PendingMap, gone: u64, other: u64)
    requires
        other != gone,
    ensures
        !delivers(spec_abandon(m, gone), gone),
        !delivers(spec_deliver(spec_abandon(m, gone), gone), gone),
        delivers(spec_deliver(spec_abandon(m, gone), gone), other) == delivers(m, other),
        m.contains_key(other) ==> spec_deliver(spec_abandon(m, gone), gone)[other] == m[other],
{
}

} // verus!
