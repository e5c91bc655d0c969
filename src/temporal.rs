//! Temporal queries over the membership ledger.
use crate::hypergraph::{Hyperedge, HypergraphNetwork};
use crate::membership::{is_snapshot, HyperedgeCatalog, MembershipLog};
use vstd::prelude::*;

verus! {

/// The valid-time window of a query: one instant, or an interval.
#[derive(Clone, Copy, Debug)]
pub enum TemporalContext {
    AsOf(i64),
    Over { start: i64, end: i64 },
}

/// Builds hypergraph snapshots "as of" an instant.
pub struct AsOfEngine;

impl AsOfEngine {
    /// The snapshot at `t_ns` without a head catalog, which has no hyperedge.
    pub fn snapshot(log: &MembershipLog, t_ns: i64) -> (r: HypergraphNetwork)
        ensures
            r.wf(),
            r@ == Map::<u32, Hyperedge>::empty(),
    {
        log.snapshot_as_of(t_ns)
    }

    /// The snapshot at `t_ns`, with heads taken from `catalog`.
    pub fn snapshot_with_catalog(log: &MembershipLog, catalog: &HyperedgeCatalog, t_ns: i64) -> (r:
        HypergraphNetwork)
        ensures
            r.wf(),
            is_snapshot(r@, log@, t_ns, catalog@),
    {
        log.snapshot_as_of_with_catalog(t_ns, catalog)
    }
}

} // verus!
