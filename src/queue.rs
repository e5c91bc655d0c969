//! Unbounded FIFO queues over the node chain.
//!
//! `MPSCQueue` is meant for many producers and one consumer, `MPMCQueue` for
//! many of both; both keep the same sequential contract, which is the order
//! in which the pushes and pops take effect. Mutation goes through `&mut self`:
//! the borrow checker hands out one mutable reference at a time, so every
//! operation is exclusive and takes effect at one instant, as a
//! linearizable queue's operations must. Threads share a queue by wrapping it
//! in whatever shared-ownership handle they use.
pub use crate::chain::{popped, QueueError};
use crate::chain::NodeChain;
use vstd::prelude::*;

verus! {

broadcast use vstd::seq_lib::group_to_multiset_ensures;

/// The values that pop hands out, oldest first, when it is called on a queue
/// holding `s` until it reports `Empty`.
pub open spec fn drained<T>(s: Seq<T>) -> Seq<T>
    decreases s.len(),
{
    match popped(s).0 {
        Ok(v) => seq![v] + drained(popped(s).1),
        Err(_) => Seq::empty(),
    }
}

/// The contents of a queue holding `s` after `vs` were pushed in that order.
pub open spec fn after_pushes<T>(s: Seq<T>, vs: Seq<T>) -> Seq<T>
    decreases vs.len(),
{
    if vs.len() == 0 {
        s
    } else {
        after_pushes(s.push(vs[0]), vs.drop_first())
    }
}

/// A queue for any number of producers and a single consumer.
pub struct MPSCQueue<T> {
    chain: NodeChain<T>,
}

impl<T> View for MPSCQueue<T> {
    type V = Seq<T>;

    closed spec fn view(&self) -> Seq<T> {
        self.chain@
    }
}

impl<T> MPSCQueue<T> {
    pub closed spec fn wf(&self) -> bool {
        self.chain.wf()
    }

    pub fn new() -> (r: MPSCQueue<T>)
        ensures
            r.wf(),
            r@ == Seq::<T>::empty(),
    {
        MPSCQueue { chain: NodeChain::new() }
    }

    /// Appends `value` at the tail. The queue is unbounded, so this always
    /// succeeds.
    pub fn push(&mut self, value: T) -> (r: Result<(), QueueError>)
        requires
            old(self).wf(),
        ensures
            final(self).wf(),
            final(self)@ == old(self)@.push(value),
            r is Ok,
    {
        self.chain.push(value);
        Ok(())
    }

    /// Removes and returns the oldest element, or reports `Empty`.
    pub fn pop(&mut self) -> (r: Result<T, QueueError>)
        requires
            old(self).wf(),
        ensures
            final(self).wf(),
            (r, final(self)@) == popped(old(self)@),
    {
        self.chain.pop()
    }

    pub fn is_empty(&self) -> (r: bool)
        requires
            self.wf(),
        ensures
            r == (self@.len() == 0),
    {
        self.chain.is_empty()
    }
}

/// A queue for any number of producers and consumers.
pub struct MPMCQueue<T> {
    chain: NodeChain<T>,
}

impl<T> View for MPMCQueue<T> {
    type V = Seq<T>;

    closed spec fn view(&self) -> Seq<T> {
        self.chain@
    }
}

impl<T> MPMCQueue<T> {
    pub closed spec fn wf(&self) -> bool {
        self.chain.wf()
    }

    pub fn new() -> (r: MPMCQueue<T>)
        ensures
            r.wf(),
            r@ == Seq::<T>::empty(),
    {
        MPMCQueue { chain: NodeChain::new() }
    }

    /// Appends `value` at the tail. The queue is unbounded, so this always
    /// succeeds.
    pub fn push(&mut self, value: T) -> (r: Result<(), QueueError>)
        requires
            old(self).wf(),
        ensures
            final(self).wf(),
            final(self)@ == old(self)@.push(value),
            r is Ok,
    {
        self.chain.push(value);
        Ok(())
    }

    /// Removes and returns the oldest element, or reports `Empty`.
    pub fn pop(&mut self) -> (r: Result<T, QueueError>)
        requires
            old(self).wf(),
        ensures
            final(self).wf(),
            (r, final(self)@) == popped(old(self)@),
    {
        self.chain.pop()
    }

    pub fn is_empty(&self) -> (r: bool)
        requires
            self.wf(),
        ensures
            r == (self@.len() == 0),
    {
        self.chain.is_empty()
    }
}

/// A queue that has just been built holds nothing: it reports empty and a
/// pop on it reports `Empty` and leaves it as it was.
pub proof fn law_fresh_queue_is_empty<T>()
    ensures
        Seq::<T>::empty().len() == 0,
        popped(Seq::<T>::empty()) == (Err::<T, QueueError>(QueueError::Empty), Seq::<T>::empty()),
{
}

/// One push onto an empty queue followed by one pop returns exactly the
/// pushed value and leaves the queue empty.
pub proof fn law_push_pop_round_trip<T>(v: T)
    ensures
        popped(Seq::<T>::empty().push(v)) == (Ok::<T, QueueError>(v), Seq::<T>::empty()),
{
    assert(Seq::<T>::empty().push(v).drop_first() =~= Seq::<T>::empty());
}

proof fn lemma_after_pushes<T>(s: Seq<T>, vs: Seq<T>)
    ensures
        after_pushes(s, vs) == s + vs,
    decreases vs.len(),
{
    if vs.len() > 0 {
        lemma_after_pushes(s.push(vs[0]), vs.drop_first());
        assert(s.push(vs[0]) + vs.drop_first() =~= s + vs);
    }
}

proof fn lemma_drained<T>(s: Seq<T>)
    ensures
        drained(s) == s,
    decreases s.len(),
{
    if s.len() > 0 {
        lemma_drained(s.drop_first());
        assert(seq![s[0]] + s.drop_first() =~= s);
    }
}

/// Pushing the values `vs` onto an empty queue (in the order in which the
/// pushes take effect, whatever producer made each) and then popping until
/// the queue reports `Empty` hands out exactly those values, in that order:
/// none is lost and none comes out twice.
pub proof fn law_drain_returns_pushes<T>(vs: Seq<T>)
    ensures
        drained(after_pushes(Seq::<T>::empty(), vs)) == vs,
        drained(after_pushes(Seq::<T>::empty(), vs)).to_multiset() == vs.to_multiset(),
{
    lemma_after_pushes(Seq::<T>::empty(), vs);
    assert(Seq::<T>::empty() + vs =~= vs);
    lemma_drained(vs);
}

/// Popping the oldest value of a non-empty queue and pushing it straight back
/// keeps exactly the same values in the queue: nothing is lost, duplicated or
/// made up by recycling an entry.
pub proof fn law_recycle_keeps_entries<T>(s: Seq<T>)
    requires
        s.len() > 0,
    ensures
        popped(s).0 == Ok::<T, QueueError>(s[0]),
        popped(s).1.push(s[0]).to_multiset() == s.to_multiset(),
{
    assert(s.remove(0) =~= s.drop_first());
    assert(s.to_multiset().contains(s[0]));
    assert(s.drop_first().push(s[0]).to_multiset() =~= s.to_multiset());
}

} // verus!
