//! Directed hypergraph snapshots: hyperedges from a set of source vertices
//! to a set of target vertices, kept in ascending order of identifier.
use vstd::prelude::*;

verus! {

/// Identifier of a vertex.
#[derive(Clone, Copy, Debug, PartialEq, Eq, PartialOrd, Ord, Hash, Structural)]
pub struct NeuronId(u32);

impl NeuronId {
    pub closed spec fn spec_raw(&self) -> u32 {
        self.0
    }

    #[verifier::when_used_as_spec(spec_raw)]
    pub fn raw(&self) -> (r: u32)
        ensures
            r == self.raw(),
    {
        self.0
    }
}

impl From<u32> for NeuronId {
    fn from(v: u32) -> (r: NeuronId)
        ensures
            r.raw() == v,
    {
        NeuronId(v)
    }
}

impl vstd::std_specs::convert::FromSpecImpl<u32> for NeuronId {
    open spec fn obeys_from_spec() -> bool {
        true
    }

    closed spec fn from_spec(v: u32) -> NeuronId {
        NeuronId(v)
    }
}

/// Identifier of a hyperedge.
#[derive(Clone, Copy, Debug, PartialEq, Eq, PartialOrd, Ord, Hash, Structural)]
pub struct HyperedgeId(u32);

impl HyperedgeId {
    pub closed spec fn spec_raw(&self) -> u32 {
        self.0
    }

    #[verifier::when_used_as_spec(spec_raw)]
    pub fn raw(&self) -> (r: u32)
        ensures
            r == self.raw(),
    {
        self.0
    }
}

impl From<u32> for HyperedgeId {
    fn from(v: u32) -> (r: HyperedgeId)
        ensures
            r.raw() == v,
    {
        HyperedgeId(v)
    }
}

impl vstd::std_specs::convert::FromSpecImpl<u32> for HyperedgeId {
    open spec fn obeys_from_spec() -> bool {
        true
    }

    closed spec fn from_spec(v: u32) -> HyperedgeId {
        HyperedgeId(v)
    }
}

/// The raw identifiers of `ns`, in order.
pub open spec fn raws(ns: Seq<NeuronId>) -> Seq<u32> {
    ns.map_values(|n: NeuronId| n.raw())
}

/// Arity semantics of a hyperedge.
#[derive(Clone, Copy, Debug, PartialEq, Eq, Structural)]
pub enum HyperedgeType {
    ManyToOne,
}

/// A hyperedge from its sources (tails) to its targets (heads).
#[derive(Clone, Debug)]
pub struct Hyperedge {
    pub id: HyperedgeId,
    pub sources: Vec<NeuronId>,
    pub targets: Vec<NeuronId>,
    pub kind: HyperedgeType,
}

impl Hyperedge {
    /// Builds a hyperedge; both endpoint sets must be non-empty.
    pub fn new(id: HyperedgeId, sources: Vec<NeuronId>, targets: Vec<NeuronId>, kind: HyperedgeType)
        -> (r: Result<Hyperedge, &'static str>)
        ensures
            r is Err <==> (sources@.len() == 0 || targets@.len() == 0),
            r matches Ok(e) ==> e.id == id && e.sources@ == sources@ && e.targets@ == targets@,
    {
        if sources.len() == 0 || targets.len() == 0 {
            return Err("empty endpoint set");
        }
        Ok(Hyperedge { id, sources, targets, kind })
    }

    pub fn id(&self) -> (r: HyperedgeId)
        ensures
            r == self.id,
    {
        self.id
    }
}

/// A set of hyperedges with distinct identifiers.
#[derive(Clone, Debug)]
pub struct HypergraphNetwork {
    /// Ascending by identifier.
    edges: Vec<Hyperedge>,
}

/// Each hyperedge of `es` under its raw identifier.
closed spec fn edge_map(es: Seq<Hyperedge>) -> Map<u32, Hyperedge> {
    Map::new(
        |x: u32| exists|k: int| 0 <= k < es.len() && es[k].id.0 == x,
        |x: u32| es[choose|k: int| 0 <= k < es.len() && es[k].id.0 == x],
    )
}

closed spec fn ids_ascending(es: Seq<Hyperedge>) -> bool {
    forall|i: int, j: int| 0 <= i < j < es.len() ==> es[i].id.0 < es[j].id.0
}

proof fn lemma_edge_map_at(es: Seq<Hyperedge>, k: int)
    requires
        ids_ascending(es),
        0 <= k < es.len(),
    ensures
        edge_map(es).contains_key(es[k].id.0),
        edge_map(es)[es[k].id.0] == es[k],
{
    let x = es[k].id.0;
    assert(edge_map(es).dom().contains(x));
    let j = choose|j: int| 0 <= j < es.len() && es[j].id.0 == x;
    if j < k {
    } else if k < j {
    }
}

impl View for HypergraphNetwork {
    /// Each hyperedge under its raw identifier.
    type V = Map<u32, Hyperedge>;

    closed spec fn view(&self) -> Map<u32, Hyperedge> {
        edge_map(self.edges@)
    }
}

impl HypergraphNetwork {
    pub closed spec fn wf(&self) -> bool {
        ids_ascending(self.edges@)
    }

    pub fn new() -> (r: HypergraphNetwork)
        ensures
            r.wf(),
            r@ == Map::<u32, Hyperedge>::empty(),
    {
        let r = HypergraphNetwork { edges: Vec::new() };
        assert(r@ =~= Map::<u32, Hyperedge>::empty());
        r
    }

    /// Index of the first edge whose identifier is at least `x`.
    fn position_of(&self, x: u32) -> (p: usize)
        requires
            self.wf(),
        ensures
            p <= self.edges@.len(),
            forall|k: int| 0 <= k < p ==> self.edges@[k].id.0 < x,
            forall|k: int| p <= k < self.edges@.len() ==> self.edges@[k].id.0 >= x,
    {
        let mut p: usize = 0;
        while p < self.edges.len() && self.edges[p].id.0 < x
            invariant
                self.wf(),
                p <= self.edges@.len(),
                forall|k: int| 0 <= k < p ==> self.edges@[k].id.0 < x,
            decreases self.edges@.len() - p,
        {
            p = p + 1;
        }
        p
    }

    /// Adds a hyperedge; fails, leaving the network as it was, when one with
    /// the same identifier is already present.
    pub fn add_hyperedge(&mut self, e: Hyperedge) -> (r: Result<(), &'static str>)
        requires
            old(self).wf(),
        ensures
            final(self).wf(),
            old(self)@.contains_key(e.id.raw()) ==> r is Err && final(self)@ == old(self)@,
            !old(self)@.contains_key(e.id.raw()) ==> r is Ok && final(self)@ == old(self)@.insert(
                e.id.raw(),
                e,
            ),
    {
        let x = e.id.0;
        let p = self.position_of(x);
        if p < self.edges.len() && self.edges[p].id.0 == x {
            proof {
                lemma_edge_map_at(self.edges@, p as int);
            }
            return Err("duplicate hyperedge id");
        }
        let ghost old_edges = self.edges@;
        let ghost old_view = self@;
        assert(!old_view.contains_key(x)) by {
            if old_view.contains_key(x) {
                let k = choose|k: int| 0 <= k < old_edges.len() && old_edges[k].id.0 == x;
                assert(k < p || k >= p);
            }
        }
        self.edges.insert(p, e);
        assert(self.edges@ == old_edges.insert(p as int, e));
        proof {
            let n = self.edges@;
            assert forall|i: int, j: int| 0 <= i < j < n.len() implies n[i].id.0 < n[j].id.0 by {
                if j < p {
                } else if i < p && j == p {
                } else if i < p {
                    assert(n[j] == old_edges[j - 1]);
                } else if i == p {
                    assert(n[j] == old_edges[j - 1]);
                } else {
                    assert(n[i] == old_edges[i - 1] && n[j] == old_edges[j - 1]);
                }
            }
            let goal = old_view.insert(x, e);
            assert forall|y: u32| #[trigger] self@.contains_key(y) <==> goal.contains_key(y) by {
                if self@.contains_key(y) {
                    let k = choose|k: int| 0 <= k < n.len() && n[k].id.0 == y;
                    if k < p {
                        assert(old_edges[k].id.0 == y);
                    } else if k > p {
                        assert(old_edges[k - 1].id.0 == y);
                    }
                }
                if goal.contains_key(y) && y != x {
                    let k = choose|k: int| 0 <= k < old_edges.len() && old_edges[k].id.0 == y;
                    if k < p {
                        assert(n[k].id.0 == y);
                    } else {
                        assert(n[k + 1].id.0 == y);
                    }
                }
                if y == x {
                    assert(n[p as int].id.0 == x);
                }
            }
            assert forall|y: u32| #[trigger] self@.contains_key(y) implies self@[y] == goal[y] by {
                let k = choose|k: int| 0 <= k < n.len() && n[k].id.0 == y;
                lemma_edge_map_at(n, k);
                if k < p {
                    lemma_edge_map_at(old_edges, k);
                } else if k > p {
                    lemma_edge_map_at(old_edges, k - 1);
                }
            }
            assert(self@ =~= goal);
        }
        Ok(())
    }
    /// The hyperedge with identifier `id`, if present.
    pub fn get_hyperedge(&self, id: HyperedgeId) -> (r: Option<&Hyperedge>)
        requires
            self.wf(),
        ensures
            r is Some <==> self@.contains_key(id.raw()),
            r matches Some(e) ==> *e == self@[id.raw()],
    {
        let p = self.position_of(id.0);
        if p < self.edges.len() && self.edges[p].id.0 == id.0 {
            proof {
                lemma_edge_map_at(self.edges@, p as int);
            }
            Some(&self.edges[p])
        } else {
            assert(!self@.contains_key(id.0)) by {
                if self@.contains_key(id.0) {
                    let k = choose|k: int| 0 <= k < self.edges@.len() && self.edges@[k].id.0 == id.0;
                    assert(k < p || k >= p);
                }
            }
            None
        }
    }

    /// The identifiers of all hyperedges, in ascending order.
    pub fn hyperedge_ids(&self) -> (r: Vec<HyperedgeId>)
        requires
            self.wf(),
        ensures
            forall|i: int, j: int| 0 <= i < j < r@.len() ==> r@[i].raw() < r@[j].raw(),
            forall|x: u32|
                self@.contains_key(x) <==> exists|k: int| 0 <= k < r@.len() && #[trigger] r@[k].raw() == x,
    {
        let mut r: Vec<HyperedgeId> = Vec::new();
        let mut i: usize = 0;
        while i < self.edges.len()
            invariant
                self.wf(),
                i <= self.edges@.len(),
                r@.len() == i,
                forall|k: int| 0 <= k < i ==> #[trigger] r@[k] == self.edges@[k].id,
            decreases self.edges@.len() - i,
        {
            r.push(self.edges[i].id);
            i = i + 1;
        }
        proof {
            assert forall|x: u32|
                self@.contains_key(x) <==> exists|k: int| 0 <= k < r@.len() && #[trigger] r@[k].raw() == x by {
                if self@.contains_key(x) {
                    let k = choose|k: int| 0 <= k < self.edges@.len() && self.edges@[k].id.0 == x;
                    assert(r@[k].raw() == x);
                }
                if exists|k: int| 0 <= k < r@.len() && #[trigger] r@[k].raw() == x {
                    let k = choose|k: int| 0 <= k < r@.len() && #[trigger] r@[k].raw() == x;
                    lemma_edge_map_at(self.edges@, k);
                }
            }
        }
        r
    }
    /// Appends `n` to the sources of the hyperedge with raw identifier `x`.
    pub(crate) fn push_source(&mut self, x: u32, n: NeuronId)
        requires
            old(self).wf(),
            old(self)@.contains_key(x),
        ensures
            final(self).wf(),
            final(self)@.dom() == old(self)@.dom(),
            forall|y: u32| #[trigger] final(self)@.contains_key(y) && y != x ==> final(self)@[y] == old(self)@[y],
            final(self)@[x].id == old(self)@[x].id,
            final(self)@[x].kind == old(self)@[x].kind,
            final(self)@[x].targets@ == old(self)@[x].targets@,
            final(self)@[x].sources@ == old(self)@[x].sources@.push(n),
    {
        let ghost old_edges = self.edges@;
        let p = self.position_of(x);
        assert(p < old_edges.len() && old_edges[p as int].id.0 == x) by {
            let k = choose|k: int| 0 <= k < old_edges.len() && old_edges[k].id.0 == x;
            assert(k >= p);
        }
        proof {
            lemma_edge_map_at(old_edges, p as int);
        }
        self.edges[p].sources.push(n);
        proof {
            let n = self.edges@;
            assert(forall|k: int| 0 <= k < n.len() ==> n[k].id == old_edges[k].id);
            assert forall|k: int| 0 <= k < n.len() && k != p implies n[k] == old_edges[k] by {}
            lemma_edge_map_at(n, p as int);
            assert forall|y: u32| #[trigger] self@.contains_key(y) <==> edge_map(old_edges).contains_key(y) by {
                if self@.contains_key(y) {
                    let k = choose|k: int| 0 <= k < n.len() && n[k].id.0 == y;
                    assert(old_edges[k].id.0 == y);
                }
                if edge_map(old_edges).contains_key(y) {
                    let k = choose|k: int| 0 <= k < old_edges.len() && old_edges[k].id.0 == y;
                    assert(n[k].id.0 == y);
                }
            }
            assert(self@.dom() =~= edge_map(old_edges).dom());
            assert forall|y: u32| #[trigger] self@.contains_key(y) && y != x implies self@[y] == edge_map(old_edges)[y] by {
                let k = choose|k: int| 0 <= k < n.len() && n[k].id.0 == y;
                lemma_edge_map_at(n, k);
                lemma_edge_map_at(old_edges, k);
            }
        }
    }
}

} // verus!
