//! The append-only membership ledger (which tail vertex belongs to which
//! hyperedge, over which span of valid time), the catalog of hyperedge
//! heads, and the snapshot of the hypergraph as of one instant.
use crate::hypergraph::{raws, Hyperedge, HyperedgeId, HyperedgeType, HypergraphNetwork, NeuronId};
use std::collections::HashMap;
use vstd::prelude::*;

verus! {

broadcast use vstd::std_specs::hash::group_hash_axioms;

/// Tail vertex `tail_v` belongs to hyperedge `h_id` from `t_start` on, up to
/// (not including) `t_end` when that is set.
#[derive(Clone, Copy, Debug)]
pub struct MembershipRow {
    pub h_id: u64,
    pub tail_v: u64,
    pub t_start: i64,
    pub t_end: Option<i64>,
}

/// The row is in force at instant `t`.
pub open spec fn is_active(row: MembershipRow, t: i64) -> bool {
    row.t_start <= t && match row.t_end {
        Some(e) => e > t,
        None => true,
    }
}

/// The row records `tail_v` in `h_id` and has not been closed.
pub open spec fn is_open(row: MembershipRow, h_id: u64, tail_v: u64) -> bool {
    row.h_id == h_id && row.tail_v == tail_v && row.t_end is None
}

/// The low 32 bits of `x`.
pub open spec fn low32(x: u64) -> u32 {
    (x % 0x1_0000_0000) as u32
}

/// The row counts in a snapshot at `t` taken with head map `heads`.
pub open spec fn contributes(row: MembershipRow, t: i64, heads: Map<u64, u64>) -> bool {
    is_active(row, t) && heads.contains_key(row.h_id)
}

/// The hyperedge that a snapshot at `t` shows under raw identifier `x`: the
/// first contributing row whose hyperedge identifier has `x` as its low 32
/// bits decides it.
pub open spec fn claimant(rows: Seq<MembershipRow>, t: i64, heads: Map<u64, u64>, x: u32) -> Option<u64>
    decreases rows.len(),
{
    if rows.len() == 0 {
        None
    } else {
        match claimant(rows.drop_last(), t, heads, x) {
            Some(h) => Some(h),
            None => if contributes(rows.last(), t, heads) && low32(rows.last().h_id) == x {
                Some(rows.last().h_id)
            } else {
                None
            },
        }
    }
}

/// The low 32 bits of the tails of hyperedge `h` in force at `t`, in ledger order.
pub open spec fn active_tails(rows: Seq<MembershipRow>, t: i64, h: u64) -> Seq<u32>
    decreases rows.len(),
{
    if rows.len() == 0 {
        Seq::empty()
    } else if is_active(rows.last(), t) && rows.last().h_id == h {
        active_tails(rows.drop_last(), t, h).push(low32(rows.last().tail_v))
    } else {
        active_tails(rows.drop_last(), t, h)
    }
}

/// `net` is the snapshot at `t` of the ledger `rows` with head map `heads`:
/// one many-to-one hyperedge for each claimed raw identifier, from the tails
/// of its claimant in force at `t` to the claimant's head.
pub open spec fn is_snapshot(net: Map<u32, Hyperedge>, rows: Seq<MembershipRow>, t: i64, heads: Map<u64, u64>) -> bool {
    &&& forall|x: u32| #[trigger] net.contains_key(x) <==> claimant(rows, t, heads, x) is Some
    &&& forall|x: u32| #[trigger] net.contains_key(x) ==> {
        let h = claimant(rows, t, heads, x)->Some_0;
        &&& net[x].id.raw() == x
        &&& net[x].kind == HyperedgeType::ManyToOne
        &&& raws(net[x].sources@) == active_tails(rows, t, h)
        &&& raws(net[x].targets@) == seq![low32(heads[h])]
    }
}

/// Catalog of hyperedge heads: hyperedge identifier to head vertex.
#[derive(Debug)]
pub struct HyperedgeCatalog {
    head_map: HashMap<u64, u64>,
}

impl View for HyperedgeCatalog {
    type V = Map<u64, u64>;

    closed spec fn view(&self) -> Map<u64, u64> {
        self.head_map@
    }
}

/// `heads` after inserting each pair of `pairs` in order (a later pair wins).
pub open spec fn with_heads(heads: Map<u64, u64>, pairs: Seq<(u64, u64)>) -> Map<u64, u64>
    decreases pairs.len(),
{
    if pairs.len() == 0 {
        heads
    } else {
        with_heads(heads, pairs.drop_last()).insert(pairs.last().0, pairs.last().1)
    }
}

impl HyperedgeCatalog {
    pub fn new() -> (r: HyperedgeCatalog)
        ensures
            r@ == Map::<u64, u64>::empty(),
    {
        HyperedgeCatalog { head_map: HashMap::new() }
    }

    /// Records `head_v` as the head of hyperedge `h_id`, replacing any earlier one.
    pub fn register_head(&mut self, h_id: u64, head_v: u64)
        ensures
            final(self)@ == old(self)@.insert(h_id, head_v),
    {
        self.head_map.insert(h_id, head_v);
    }

    /// Records every pair of `pairs`, in order.
    pub fn extend_heads(&mut self, pairs: Vec<(u64, u64)>)
        ensures
            final(self)@ == with_heads(old(self)@, pairs@),
    {
        let ghost start = self@;
        let mut i: usize = 0;
        while i < pairs.len()
            invariant
                i <= pairs@.len(),
                self@ == with_heads(start, pairs@.take(i as int)),
            decreases pairs@.len() - i,
        {
            let (h, v) = pairs[i];
            self.head_map.insert(h, v);
            assert(pairs@.take(i + 1).drop_last() =~= pairs@.take(i as int));
            i = i + 1;
        }
        assert(pairs@.take(i as int) =~= pairs@);
    }

    /// The head of hyperedge `h_id`, if one is recorded.
    pub fn head_of(&self, h_id: u64) -> (r: Option<u64>)
        ensures
            r == (if self@.contains_key(h_id) { Some(self@[h_id]) } else { None::<u64> }),
    {
        match self.head_map.get(&h_id) {
            Some(v) => Some(*v),
            None => None,
        }
    }
}

proof fn lemma_claimant_facts(rows: Seq<MembershipRow>, t: i64, heads: Map<u64, u64>, x: u32)
    ensures
        claimant(rows, t, heads, x) matches Some(h) ==> heads.contains_key(h) && low32(h) == x,
    decreases rows.len(),
{
    if rows.len() > 0 {
        lemma_claimant_facts(rows.drop_last(), t, heads, x);
    }
}

proof fn lemma_unclaimed_has_no_tails(rows: Seq<MembershipRow>, t: i64, heads: Map<u64, u64>, h: u64)
    requires
        heads.contains_key(h),
        claimant(rows, t, heads, low32(h)) is None,
    ensures
        active_tails(rows, t, h) == Seq::<u32>::empty(),
    decreases rows.len(),
{
    if rows.len() > 0 {
        lemma_unclaimed_has_no_tails(rows.drop_last(), t, heads, h);
    }
}

/// The append-only membership ledger.
#[derive(Debug)]
pub struct MembershipLog {
    rows: Vec<MembershipRow>,
}

impl View for MembershipLog {
    type V = Seq<MembershipRow>;

    closed spec fn view(&self) -> Seq<MembershipRow> {
        self.rows@
    }
}

/// Index of the latest open row recording `tail_v` in `h_id`, or -1 when
/// there is none.
pub open spec fn last_open(rows: Seq<MembershipRow>, h_id: u64, tail_v: u64) -> int
    decreases rows.len(),
{
    if rows.len() == 0 {
        -1
    } else if is_open(rows.last(), h_id, tail_v) {
        rows.len() - 1
    } else {
        last_open(rows.drop_last(), h_id, tail_v)
    }
}

/// `rows` with the latest open row recording `tail_v` in `h_id` closed at
/// `t_end`; unchanged when there is no such row.
pub open spec fn closed_latest(rows: Seq<MembershipRow>, h_id: u64, tail_v: u64, t_end: i64) -> Seq<MembershipRow> {
    let k = last_open(rows, h_id, tail_v);
    if k < 0 {
        rows
    } else {
        rows.update(k, MembershipRow { t_end: Some(t_end), ..rows[k] })
    }
}

proof fn lemma_last_open_prefix(rows: Seq<MembershipRow>, h_id: u64, tail_v: u64, i: int)
    requires
        0 <= i <= rows.len(),
        forall|j: int| i <= j < rows.len() ==> !is_open(#[trigger] rows[j], h_id, tail_v),
    ensures
        last_open(rows, h_id, tail_v) == last_open(rows.take(i), h_id, tail_v),
    decreases rows.len() - i,
{
    if i == rows.len() {
        assert(rows.take(i) =~= rows);
    } else {
        let d = rows.drop_last();
        assert(d.take(i) =~= rows.take(i));
        lemma_last_open_prefix(d, h_id, tail_v, i);
    }
}

impl MembershipLog {
    pub fn new() -> (r: MembershipLog)
        ensures
            r@ == Seq::<MembershipRow>::empty(),
    {
        MembershipLog { rows: Vec::new() }
    }

    /// Appends an open-ended membership of `tail_v` in `h_id` from `t_start` on.
    pub fn add(&mut self, h_id: u64, tail_v: u64, t_start: i64)
        ensures
            final(self)@ == old(self)@.push(MembershipRow { h_id, tail_v, t_start, t_end: None }),
    {
        self.rows.push(MembershipRow { h_id, tail_v, t_start, t_end: None });
    }

    /// Closes at `t_end` the latest open membership of `tail_v` in `h_id`;
    /// without one the ledger stays as it is.
    pub fn remove(&mut self, h_id: u64, tail_v: u64, t_end: i64)
        ensures
            final(self)@ == closed_latest(old(self)@, h_id, tail_v, t_end),
    {
        let mut i: usize = self.rows.len();
        while i > 0
            invariant
                self@ == old(self)@,
                i <= self.rows@.len(),
                forall|j: int| i <= j < self.rows@.len() ==> !is_open(#[trigger] self.rows@[j], h_id, tail_v),
            decreases i,
        {
            let row = self.rows[i - 1];
            if row.h_id == h_id && row.tail_v == tail_v && row.t_end.is_none() {
                proof {
                    lemma_last_open_prefix(self.rows@, h_id, tail_v, i as int);
                    assert(self.rows@.take(i as int).last() == row);
                }
                self.rows.set(i - 1, MembershipRow { t_end: Some(t_end), ..row });
                return;
            }
            i = i - 1;
        }
        proof {
            lemma_last_open_prefix(self.rows@, h_id, tail_v, 0);
        }
    }

    /// The snapshot at `t_ns` without a head catalog: no hyperedge has a
    /// head, so none can be materialized.
    pub fn snapshot_as_of(&self, _t_ns: i64) -> (r: HypergraphNetwork)
        ensures
            r.wf(),
            r@ == Map::<u32, Hyperedge>::empty(),
    {
        HypergraphNetwork::new()
    }

    /// The snapshot at `t_ns`, with heads taken from `catalog`.
    pub fn snapshot_as_of_with_catalog(&self, t_ns: i64, catalog: &HyperedgeCatalog) -> (r: HypergraphNetwork)
        ensures
            r.wf(),
            is_snapshot(r@, self@, t_ns, catalog@),
    {
        let ghost rows = self.rows@;
        let ghost heads = catalog@;
        let mut net = HypergraphNetwork::new();
        let mut claims: Vec<(u32, u64)> = Vec::new();
        let mut i: usize = 0;
        while i < self.rows.len()
            invariant
                i <= rows.len(),
                rows == self.rows@,
                heads == catalog@,
                net.wf(),
                is_snapshot(net@, rows.take(i as int), t_ns, heads),
                forall|x: u32| #[trigger] net@.contains_key(x)
                    <==> exists|k: int| 0 <= k < claims@.len() && claims@[k].0 == x,
                forall|k: int| 0 <= k < claims@.len()
                    ==> claimant(rows.take(i as int), t_ns, heads, (#[trigger] claims@[k]).0) == Some(claims@[k].1),
            decreases rows.len() - i,
        {
            let row = self.rows[i];
            let ghost pre = rows.take(i as int);
            let ghost next = rows.take(i + 1);
            assert(next.drop_last() =~= pre);
            assert(next.last() == row);
            let active = row.t_start <= t_ns && match row.t_end {
                Some(e) => e > t_ns,
                None => true,
            };
            let ghost net0 = net@;
            let ghost claims0 = claims@;
            proof {
                assert forall|y: u32| #[trigger] claimant(next, t_ns, heads, y) is Some
                    && !(claimant(pre, t_ns, heads, y) is Some) implies y == low32(row.h_id) by {}
                assert forall|y: u32| claimant(pre, t_ns, heads, y) is Some
                    implies #[trigger] claimant(next, t_ns, heads, y) == claimant(pre, t_ns, heads, y) by {}
                assert forall|h: u64| h != row.h_id || !active
                    implies #[trigger] active_tails(next, t_ns, h) == active_tails(pre, t_ns, h) by {}
                assert forall|y: u32| #[trigger] net0.contains_key(y)
                    implies net0[y].id.raw() == y && (claimant(pre, t_ns, heads, y) matches Some(h)
                        && heads.contains_key(h) && low32(h) == y) by {
                    lemma_claimant_facts(pre, t_ns, heads, y);
                }
            }
            let ghost mut changed = false;
            if active {
                match catalog.head_of(row.h_id) {
                    Some(head) => {
                        let x = #[verifier::truncate] (row.h_id as u32);
                        let tail = #[verifier::truncate] (row.tail_v as u32);
                        let head32 = #[verifier::truncate] (head as u32);
                        let ghost (hv, tv) = (row.h_id, row.tail_v);
                        assert(x == (hv % 0x1_0000_0000) as u32) by (bit_vector)
                            requires x == #[verifier::truncate] (hv as u32);
                        assert(tail == (tv % 0x1_0000_0000) as u32) by (bit_vector)
                            requires tail == #[verifier::truncate] (tv as u32);
                        assert(head32 == (head % 0x1_0000_0000) as u32) by (bit_vector)
                            requires head32 == #[verifier::truncate] (head as u32);
                        let mut k: usize = 0;
                        while k < claims.len() && claims[k].0 != x
                            invariant
                                k <= claims@.len(),
                                forall|j: int| 0 <= j < k ==> (#[trigger] claims@[j]).0 != x,
                            decreases claims@.len() - k,
                        {
                            k = k + 1;
                        }
                        if k < claims.len() {
                            assert(claims@[k as int].0 == x);
                            if claims[k].1 == row.h_id {
                                let n = NeuronId::from(tail);
                                net.push_source(x, n);
                                proof {
                                    assert(raws(net@[x].sources@) =~= raws(net0[x].sources@).push(n.raw()));
                                    assert forall|y: u32| #[trigger] net@.contains_key(y) && y != x
                                        implies claimant(pre, t_ns, heads, y)->Some_0 != row.h_id by {}
                                    assert(is_snapshot(net@, next, t_ns, heads));
                                }
                            } else {
                                proof {
                                    assert forall|y: u32| #[trigger] net@.contains_key(y)
                                        implies claimant(pre, t_ns, heads, y)->Some_0 != row.h_id by {
                                        if y == x {
                                        }
                                    }
                                    assert(is_snapshot(net@, next, t_ns, heads));
                                }
                            }
                        } else {
                            assert(!net@.contains_key(x));
                            proof {
                                lemma_claimant_facts(pre, t_ns, heads, x);
                                lemma_unclaimed_has_no_tails(pre, t_ns, heads, row.h_id);
                            }
                            let mut sources: Vec<NeuronId> = Vec::new();
                            sources.push(NeuronId::from(tail));
                            let mut targets: Vec<NeuronId> = Vec::new();
                            targets.push(NeuronId::from(head32));
                            let e = Hyperedge {
                                id: HyperedgeId::from(x),
                                sources,
                                targets,
                                kind: HyperedgeType::ManyToOne,
                            };
                            let _ = net.add_hyperedge(e);
                            claims.push((x, row.h_id));
                            proof {
                                assert(raws(net@[x].sources@) =~= active_tails(next, t_ns, row.h_id));
                                assert(raws(net@[x].targets@) =~= seq![low32(heads[row.h_id])]);
                                assert forall|y: u32| #[trigger] net@.contains_key(y) && y != x
                                    implies claimant(pre, t_ns, heads, y)->Some_0 != row.h_id by {}
                                assert forall|y: u32| #[trigger] net@.contains_key(y)
                                    <==> exists|j: int| 0 <= j < claims@.len() && claims@[j].0 == y by {
                                    if net0.contains_key(y) {
                                        let j = choose|j: int| 0 <= j < claims0.len() && claims0[j].0 == y;
                                        assert(claims@[j] == claims0[j]);
                                    }
                                    if y == x {
                                        assert(claims@[claims0.len() as int].0 == x);
                                    }
                                    if exists|j: int| 0 <= j < claims@.len() && claims@[j].0 == y {
                                        let j = choose|j: int| 0 <= j < claims@.len() && claims@[j].0 == y;
                                        if j < claims0.len() {
                                            assert(claims0[j].0 == y);
                                        }
                                    }
                                }
                                assert forall|j: int| 0 <= j < claims@.len()
                                    implies claimant(next, t_ns, heads, (#[trigger] claims@[j]).0) == Some(claims@[j].1) by {
                                    if j < claims0.len() {
                                        assert(claims@[j] == claims0[j]);
                                    }
                                }
                                assert(is_snapshot(net@, next, t_ns, heads));
                            }
                        }
                        proof { changed = true; }
                    },
                    None => {},
                }
            }
            proof {
                if !changed {
                    assert forall|y: u32| #[trigger] net@.contains_key(y)
                        implies claimant(pre, t_ns, heads, y)->Some_0 != row.h_id || !active by {}
                    assert(is_snapshot(net@, next, t_ns, heads));
                }
            }
            i = i + 1;
        }
        assert(rows.take(i as int) =~= rows);
        net
    }

    /// The rows of the ledger, oldest first.
    pub fn iter(&self) -> std::slice::Iter<'_, MembershipRow> {
        self.rows.iter()
    }
}

} // verus!
