//! The transactional interface for topology and membership changes, and an
//! in-memory implementation of it.
use crate::hypergraph::HypergraphNetwork;
use crate::membership::{closed_latest, is_snapshot, HyperedgeCatalog, MembershipLog, MembershipRow};
use crate::temporal::AsOfEngine;
use vstd::prelude::*;

verus! {

/// A request to create a hyperedge with head vertex `head_v`.
#[derive(Debug)]
pub struct HeCreate {
    pub head_v: u64,
    pub fe_spec_json: String,
    pub state_schema_json: Option<String>,
}

/// Why a transaction was refused.
#[derive(Debug)]
pub struct TxnError {
    pub message: String,
}

/// Transactional operations on topology, membership and state.
pub trait TxnApi {
    fn he_create(&mut self, req: HeCreate) -> Result<u64, TxnError>;

    fn he_retire(&mut self, h_id: u64) -> Result<(), TxnError>;

    fn mem_add(&mut self, h_id: u64, tail_v: u64, t_start: i64) -> Result<(), TxnError>;

    fn mem_rem(&mut self, h_id: u64, tail_v: u64, t_end: i64) -> Result<(), TxnError>;

    fn state_upd(&mut self, h_id: u64, op: &str, payload_json: &str) -> Result<(), TxnError>;

    fn fire_append(&mut self, h_id: u64, t_ns: i64, payload_bytes: &[u8]) -> Result<(), TxnError>;
}

/// Transactions applied to an in-memory ledger and head catalog.
pub struct InMemoryTxn {
    pub membership: MembershipLog,
    pub catalog: HyperedgeCatalog,
    next_h_id: u64,
}

impl InMemoryTxn {
    /// The ledger's rows.
    pub closed spec fn ledger(&self) -> Seq<MembershipRow> {
        self.membership@
    }

    /// The recorded heads.
    pub closed spec fn heads(&self) -> Map<u64, u64> {
        self.catalog@
    }

    /// The identifier that the next created hyperedge receives.
    pub closed spec fn next_id(&self) -> u64 {
        self.next_h_id
    }

    /// The snapshot at `t_ns` of the ledger, with the recorded heads.
    pub fn snapshot_as_of(&self, t_ns: i64) -> (r: HypergraphNetwork)
        ensures
            r.wf(),
            is_snapshot(r@, self.ledger(), t_ns, self.heads()),
    {
        AsOfEngine::snapshot_with_catalog(&self.membership, &self.catalog, t_ns)
    }

    /// Creates a hyperedge with head `req.head_v` under the next identifier,
    /// which it returns. Identifiers start at 1 and are never reused; once
    /// the last one is taken every further creation is refused.
    pub fn he_create(&mut self, req: HeCreate) -> (r: Result<u64, TxnError>)
        ensures
            final(self).ledger() == old(self).ledger(),
            old(self).next_id() < u64::MAX ==> r == Ok::<u64, TxnError>(old(self).next_id())
                && final(self).next_id() == old(self).next_id() + 1
                && final(self).heads() == old(self).heads().insert(old(self).next_id(), req.head_v),
            old(self).next_id() == u64::MAX ==> r is Err && final(self).next_id() == old(self).next_id()
                && final(self).heads() == old(self).heads(),
    {
        let h_id = self.next_h_id;
        if h_id == u64::MAX {
            return Err(TxnError { message: String::from_str("hyperedge identifiers exhausted") });
        }
        self.next_h_id = h_id + 1;
        self.catalog.register_head(h_id, req.head_v);
        Ok(h_id)
    }

    /// Retiring a hyperedge changes nothing in memory.
    pub fn he_retire(&mut self, _h_id: u64) -> (r: Result<(), TxnError>)
        ensures
            r is Ok,
            final(self).ledger() == old(self).ledger(),
            final(self).heads() == old(self).heads(),
            final(self).next_id() == old(self).next_id(),
    {
        Ok(())
    }

    /// Appends an open membership of `tail_v` in `h_id` from `t_start` on.
    pub fn mem_add(&mut self, h_id: u64, tail_v: u64, t_start: i64) -> (r: Result<(), TxnError>)
        ensures
            r is Ok,
            final(self).ledger() == old(self).ledger().push(
                MembershipRow { h_id, tail_v, t_start, t_end: None },
            ),
            final(self).heads() == old(self).heads(),
            final(self).next_id() == old(self).next_id(),
    {
        self.membership.add(h_id, tail_v, t_start);
        Ok(())
    }

    /// Closes at `t_end` the latest open membership of `tail_v` in `h_id`,
    /// if there is one.
    pub fn mem_rem(&mut self, h_id: u64, tail_v: u64, t_end: i64) -> (r: Result<(), TxnError>)
        ensures
            r is Ok,
            final(self).ledger() == closed_latest(old(self).ledger(), h_id, tail_v, t_end),
            final(self).heads() == old(self).heads(),
            final(self).next_id() == old(self).next_id(),
    {
        self.membership.remove(h_id, tail_v, t_end);
        Ok(())
    }

    /// State updates are accepted and not kept in memory.
    pub fn state_upd(&mut self, _h_id: u64, _op: &str, _payload_json: &str) -> (r: Result<(), TxnError>)
        ensures
            r is Ok,
            final(self).ledger() == old(self).ledger(),
            final(self).heads() == old(self).heads(),
            final(self).next_id() == old(self).next_id(),
    {
        Ok(())
    }

    /// Fire events are accepted and not kept in memory.
    pub fn fire_append(&mut self, _h_id: u64, _t_ns: i64, _payload_bytes: &[u8]) -> (r: Result<(), TxnError>)
        ensures
            r is Ok,
            final(self).ledger() == old(self).ledger(),
            final(self).heads() == old(self).heads(),
            final(self).next_id() == old(self).next_id(),
    {
        Ok(())
    }
}

impl Default for InMemoryTxn {
    fn default() -> (r: InMemoryTxn)
        ensures
            r.ledger() == Seq::<MembershipRow>::empty(),
            r.heads() == Map::<u64, u64>::empty(),
            r.next_id() == 1,
    {
        InMemoryTxn { membership: MembershipLog::new(), catalog: HyperedgeCatalog::new(), next_h_id: 1 }
    }
}

impl TxnApi for InMemoryTxn {
    fn he_create(&mut self, req: HeCreate) -> Result<u64, TxnError> {
        InMemoryTxn::he_create(self, req)
    }

    fn he_retire(&mut self, h_id: u64) -> Result<(), TxnError> {
        InMemoryTxn::he_retire(self, h_id)
    }

    fn mem_add(&mut self, h_id: u64, tail_v: u64, t_start: i64) -> Result<(), TxnError> {
        InMemoryTxn::mem_add(self, h_id, tail_v, t_start)
    }

    fn mem_rem(&mut self, h_id: u64, tail_v: u64, t_end: i64) -> Result<(), TxnError> {
        InMemoryTxn::mem_rem(self, h_id, tail_v, t_end)
    }

    fn state_upd(&mut self, h_id: u64, op: &str, payload_json: &str) -> Result<(), TxnError> {
        InMemoryTxn::state_upd(self, h_id, op, payload_json)
    }

    fn fire_append(&mut self, h_id: u64, t_ns: i64, payload_bytes: &[u8]) -> Result<(), TxnError> {
        InMemoryTxn::fire_append(self, h_id, t_ns, payload_bytes)
    }
}

} // verus!
