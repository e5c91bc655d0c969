//! A portable memory-ordering vocabulary and its translation to the
//! platform's native atomic orderings.
use std::sync::atomic::Ordering;
use vstd::prelude::*;

verus! {

/// The ordering constraint a caller selects for one atomic operation.
#[derive(Clone, Copy, Debug, PartialEq, Eq, Structural)]
pub enum MemoryOrdering {
    Relaxed,
    Acquire,
    Release,
    AcqRel,
    SeqCst,
}

impl MemoryOrdering {
    /// The ordering makes a load synchronize with the release that it reads from.
    pub open spec fn acquires(self) -> bool {
        self is Acquire || self is AcqRel || self is SeqCst
    }

    /// The ordering makes a store visible together with every write before it.
    pub open spec fn releases(self) -> bool {
        self is Release || self is AcqRel || self is SeqCst
    }

    /// The native ordering with the same name.
    pub open spec fn native(self) -> Ordering {
        match self {
            MemoryOrdering::Relaxed => Ordering::Relaxed,
            MemoryOrdering::Acquire => Ordering::Acquire,
            MemoryOrdering::Release => Ordering::Release,
            MemoryOrdering::AcqRel => Ordering::AcqRel,
            MemoryOrdering::SeqCst => Ordering::SeqCst,
        }
    }

    /// The native ordering with the same name, for read-modify-write operations.
    pub fn to_native(self) -> (r: Ordering)
        ensures
            r == self.native(),
    {
        match self {
            MemoryOrdering::Relaxed => Ordering::Relaxed,
            MemoryOrdering::Acquire => Ordering::Acquire,
            MemoryOrdering::Release => Ordering::Release,
            MemoryOrdering::AcqRel => Ordering::AcqRel,
            MemoryOrdering::SeqCst => Ordering::SeqCst,
        }
    }

    /// The native ordering used when this ordering is asked of a load.
    /// A load has no release half, so `Release` weakens to `Relaxed` and
    /// `AcqRel` to `Acquire`; the acquire half is always kept.
    pub open spec fn load_native(self) -> Ordering {
        match self {
            MemoryOrdering::Relaxed | MemoryOrdering::Release => Ordering::Relaxed,
            MemoryOrdering::Acquire | MemoryOrdering::AcqRel => Ordering::Acquire,
            MemoryOrdering::SeqCst => Ordering::SeqCst,
        }
    }

    /// The native ordering used when this ordering is asked of a store.
    /// A store has no acquire half, so `Acquire` weakens to `Relaxed` and
    /// `AcqRel` to `Release`; the release half is always kept.
    pub open spec fn store_native(self) -> Ordering {
        match self {
            MemoryOrdering::Relaxed | MemoryOrdering::Acquire => Ordering::Relaxed,
            MemoryOrdering::Release | MemoryOrdering::AcqRel => Ordering::Release,
            MemoryOrdering::SeqCst => Ordering::SeqCst,
        }
    }

    /// Translates the ordering for a load. Native loads reject `Release` and
    /// `AcqRel`, so the result is never one of those.
    pub fn for_load(self) -> (r: Ordering)
        ensures
            r == self.load_native(),
            !(r is Release) && !(r is AcqRel),
            self.acquires() <==> (r is Acquire || r is SeqCst),
    {
        match self {
            MemoryOrdering::Relaxed | MemoryOrdering::Release => Ordering::Relaxed,
            MemoryOrdering::Acquire | MemoryOrdering::AcqRel => Ordering::Acquire,
            MemoryOrdering::SeqCst => Ordering::SeqCst,
        }
    }

    /// Translates the ordering for a store. Native stores reject `Acquire` and
    /// `AcqRel`, so the result is never one of those.
    pub fn for_store(self) -> (r: Ordering)
        ensures
            r == self.store_native(),
            !(r is Acquire) && !(r is AcqRel),
            self.releases() <==> (r is Release || r is SeqCst),
    {
        match self {
            MemoryOrdering::Relaxed | MemoryOrdering::Acquire => Ordering::Relaxed,
            MemoryOrdering::Release | MemoryOrdering::AcqRel => Ordering::Release,
            MemoryOrdering::SeqCst => Ordering::SeqCst,
        }
    }
}

impl From<MemoryOrdering> for Ordering {
    fn from(o: MemoryOrdering) -> (r: Ordering)
        ensures
            r == o.native(),
    {
        o.to_native()
    }
}

impl vstd::std_specs::convert::FromSpecImpl<MemoryOrdering> for Ordering {
    open spec fn obeys_from_spec() -> bool {
        true
    }

    open spec fn from_spec(o: MemoryOrdering) -> Ordering {
        o.native()
    }
}

} // verus!
