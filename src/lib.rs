//! Non-blocking concurrency primitives: atomic cells driven by an explicit
//! memory-ordering vocabulary, and unbounded FIFO queues whose node chain
//! lives in an arena with generation-tagged cursors and deferred reuse of
//! retired nodes.
//!
//! Beside them stand the temporal hypergraph pieces that feed such channels:
//! the membership ledger, its snapshots "as of" an instant, an in-memory
//! transactional front end, and deterministic text encoders for snapshots.

pub mod atomic;
mod chain;
pub mod export;
pub mod hypergraph;
pub mod membership;
pub mod ordering;
pub mod queue;
pub mod temporal;
pub mod txn;
