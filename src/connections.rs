use vstd::prelude::*;

use crate::types::ServerEndpoint;

verus! {

/// The model of one endpoint: its host and its port.
pub type EndpointView = (Seq<char>, u16);

pub open spec fn endpoints_view(es: Seq<ServerEndpoint>) -> Seq<EndpointView> {
    es.map_values(|e: ServerEndpoint| e@)
}

/// The set after a connection to `e` is established: unchanged if `e` is
/// already in it.
pub open spec fn spec_connect(s: Seq<EndpointView>, e: EndpointView) -> Seq<EndpointView> {
    if s.contains(e) {
        s
    } else {
        s.push(e)
    }
}

/// The set after connections to each of `es` are established in turn.
pub open spec fn connect_all(s: Seq<EndpointView>, es: Seq<EndpointView>) -> Seq<EndpointView>
    decreases es.len(),
{
    if es.len() == 0 {
        s
    } else {
        spec_connect(connect_all(s, es.drop_last()), es.last())
    }
}

/// The live connections of the router, each endpoint at most once, in the
/// order they were established.
pub struct ConnectionSet {
    servers: Vec<ServerEndpoint>,
}

impl View for ConnectionSet {
    type V = Seq<EndpointView>;

    closed spec fn view(&self) -> Seq<EndpointView> {
        endpoints_view(self.servers@)
    }
}

impl ConnectionSet {
    pub open spec fn wf(&self) -> bool {
        self@.no_duplicates()
    }

    pub fn new() -> (r: ConnectionSet)
        ensures
            r.wf(),
            r@ == Seq::<EndpointView>::empty(),
    {
        let r = ConnectionSet { servers: Vec::new() };
        assert(r@ =~= Seq::<EndpointView>::empty());
        r
    }

    pub fn len(&self) -> (r: usize)
        ensures
            r == self@.len(),
    {
        self.servers.len()
    }

    fn position(&self, e: &ServerEndpoint) -> (r: Option<usize>)
        ensures
            match r {
                Some(j) => j < self@.len() && self@[j as int] == e@,
                None => !self@.contains(e@),
            },
    {
        let mut j: usize = 0;
        while j < self.servers.len()
            invariant
                j <= self@.len(),
                self@.len() == self.servers@.len(),
                forall|k: int| 0 <= k < j ==> #[trigger] self@[k] != e@,
            decreases self.servers@.len() - j,
        {
            if self.servers[j].same_as(e) {
                return Some(j);
            }
            j = j + 1;
        }
        None
    }

    /// Records an established connection to `e`; returns whether it is new.
    pub fn connect(&mut self, e: ServerEndpoint) -> (r: bool)
        requires
            old(self).wf(),
        ensures
            final(self).wf(),
            r == !old(self)@.contains(e@),
            final(self)@ == spec_connect(old(self)@, e@),
    {
        match self.position(&e) {
            Some(_) => false,
            None => {
                let ghost ev = e@;
                self.servers.push(e);
                assert(self@ =~= old(self)@.push(ev));
                true
            },
        }
    }

    /// Records that the connection to `e` is closed; returns whether it was
    /// open.
    pub fn disconnect(&mut self, e: &ServerEndpoint) -> (r: bool)
        requires
            old(self).wf(),
        ensures
            final(self).wf(),
            r == old(self)@.contains(e@),
            final(self)@.to_set() == old(self)@.to_set().remove(e@),
            final(self)@.len() == old(self)@.len() - (if r { 1int } else { 0int }),
    {
        match self.position(e) {
            Some(j) => {
                let ghost o = self@;
                self.servers.remove(j);
                assert(self@ =~= o.remove(j as int));
                assert forall|a: int, b: int| 0 <= a < self@.len() && 0 <= b < self@.len() && a != b implies self@[a] != self@[b] by {
                    let oa = if a < j { a } else { a + 1 };
                    let ob = if b < j { b } else { b + 1 };
                    assert(o[oa] != o[ob]);
                }
                assert(self@.to_set() =~= o.to_set().remove(e@)) by {
                    assert forall|x: EndpointView| self@.to_set().contains(x) <==> (o.to_set().contains(x) && x != e@) by {
                        if self@.contains(x) {
                            let k = choose|k: int| 0 <= k < self@.len() && self@[k] == x;
                            let ok = if k < j { k } else { k + 1 };
                            assert(o[ok] == x);
                            assert(ok != j);
                        }
                        if o.contains(x) && x != e@ {
                            let k = choose|k: int| 0 <= k < o.len() && o[k] == x;
                            if k < j {
                                assert(self@[k] == x);
                            } else {
                                assert(self@[k - 1] == x);
                            }
                        }
                    }
                }
                true
            },
            None => {
                assert(old(self)@.to_set().remove(e@) =~= old(self)@.to_set());
                false
            },
        }
    }

    /// A copy of the current set.
    pub fn snapshot(&self) -> (r: Vec<ServerEndpoint>)
        ensures
            endpoints_view(r@) == self@,
    {
        let mut out: Vec<ServerEndpoint> = Vec::new();
        let mut j: usize = 0;
        while j < self.servers.len()
            invariant
                j <= self.servers@.len(),
                endpoints_view(out@) == endpoints_view(self.servers@.subrange(0, j as int)),
            decreases self.servers@.len() - j,
        {
            let e = self.servers[j].duplicate();
            let ghost before = out@;
            out.push(e);
            proof {
                let pre = self.servers@.subrange(0, j as int);
                let nxt = self.servers@.subrange(0, j as int + 1);
                assert(endpoints_view(before).len() == endpoints_view(pre).len());
                assert forall|k: int| 0 <= k < out@.len() implies #[trigger] endpoints_view(out@)[k]
                    == endpoints_view(nxt)[k] by {
                    if k < before.len() {
                        assert(endpoints_view(before)[k] == endpoints_view(pre)[k]);
                    }
                }
                assert(endpoints_view(out@) =~= endpoints_view(nxt));
            }
            j = j + 1;
        }
        assert(self.servers@.subrange(0, j as int) =~= self.servers@);
        out
    }
}

/// Establishing connections to `n` distinct endpoints, starting from none,
/// gives a set of exactly those `n` endpoints, with no duplicates.
pub proof fn lemma_distinct_connections(es: Seq<EndpointView>)
    requires
        es.no_duplicates(),
    ensures
        connect_all(Seq::empty(), es) == es,
        connect_all(Seq::empty(), es).len() == es.len(),
        connect_all(Seq::empty(), es).no_duplicates(),
    decreases es.len(),
{
    if es.len() > 0 {
        let init = es.drop_last();
        assert forall|i: int, j: int| 0 <= i < init.len() && 0 <= j < init.len() && i != j implies init[i] != init[j] by {
            assert(es[i] != es[j]);
        }
        lemma_distinct_connections(init);
        assert(!init.contains(es.last())) by {
            if init.contains(es.last()) {
                let k = choose|k: int| 0 <= k < init.len() && init[k] == es.last();
                assert(es[k] == es[es.len() - 1]);
            }
        }
        assert(init.push(es.last()) =~= es);
    }
}

/// Establishing connections never puts an endpoint in the set twice.
pub proof fn lemma_connect_keeps_distinct(s: Seq<EndpointView>, es: Seq<EndpointView>)
    requires
        s.no_duplicates(),
    ensures
        connect_all(s, es).no_duplicates(),
    decreases es.len(),
{
    if es.len() > 0 {
        lemma_connect_keeps_distinct(s, es.drop_last());
        let prev = connect_all(s, es.drop_last());
        if !prev.contains(es.last()) {
            let next = prev.push(es.last());
            assert forall|i: int, j: int| 0 <= i < next.len() && 0 <= j < next.len() && i != j implies next[i] != next[j] by {
                if i == prev.len() {
                    assert(prev[j] == next[j]);
                } else if j == prev.len() {
                    assert(prev[i] == next[i]);
                }
            }
        }
    }
}

} // verus!
