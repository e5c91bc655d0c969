//! Single-word atomic cells whose every operation takes the caller's
//! `MemoryOrdering`.
//!
//! A cell is meant to be shared between threads, so the value that a load or
//! a read-modify-write observes is whatever the last write in the cell's
//! modification order left there: no contract below can name it. What these
//! functions do state is how the caller's ordering is handed to the hardware:
//! loads never receive a release-only ordering and stores never an
//! acquire-only one (either would make the native operation panic).
use crate::ordering::MemoryOrdering;
use std::sync::atomic::{AtomicBool, AtomicU64};
use vstd::prelude::*;

verus! {

/// An unsigned 64-bit counter.
pub struct AtomicCounter {
    cell: AtomicU64,
}

impl AtomicCounter {
    pub fn new(initial: u64) -> (r: AtomicCounter) {
        AtomicCounter { cell: AtomicU64::new(initial) }
    }

    /// Reads the counter; an acquiring `ordering` synchronizes with the
    /// releasing store that wrote the value read.
    pub fn load(&self, ordering: MemoryOrdering) -> (r: u64) {
        self.cell.load(ordering.for_load())
    }

    /// Replaces the counter's value; a releasing `ordering` publishes every
    /// write made before it to an acquiring reader of `value`.
    pub fn store(&self, value: u64, ordering: MemoryOrdering) {
        self.cell.store(value, ordering.for_store())
    }

    /// Adds `delta` (wrapping at 2^64) and returns the value held just before.
    pub fn fetch_add(&self, delta: u64, ordering: MemoryOrdering) -> (r: u64) {
        self.cell.fetch_add(delta, ordering.to_native())
    }

    /// Adds one with sequentially consistent ordering and returns the value
    /// held just before.
    pub fn increment(&self) -> (r: u64) {
        self.fetch_add(1, MemoryOrdering::SeqCst)
    }
}

/// A boolean flag.
pub struct AtomicFlag {
    cell: AtomicBool,
}

impl AtomicFlag {
    pub fn new(initial: bool) -> (r: AtomicFlag) {
        AtomicFlag { cell: AtomicBool::new(initial) }
    }

    /// Reads the flag; an acquiring `ordering` synchronizes with the
    /// releasing store that wrote the value read.
    pub fn load(&self, ordering: MemoryOrdering) -> (r: bool) {
        self.cell.load(ordering.for_load())
    }

    /// Sets the flag; a releasing `ordering` publishes every write made
    /// before it to an acquiring reader of `value`.
    pub fn store(&self, value: bool, ordering: MemoryOrdering) {
        self.cell.store(value, ordering.for_store())
    }
}

} // verus!
