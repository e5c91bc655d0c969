//! The node chain shared by both queues: nodes live in an arena and are
//! addressed by index, so a link is a plain integer and a node can be handed
//! back to the arena without any dangling reference.
//!
//! The chain always starts at a sentinel node that carries no value; the
//! values in the queue are those of the nodes after it, oldest first. A pop
//! makes the first valued node the new sentinel and retires the old one.
//! Retired nodes are not reused at once: they wait on a retirement list and
//! are moved to the free list in one batch, only when a push finds the free
//! list empty. Every reuse of a slot advances its generation, and the head
//! and tail cursors carry the generation of the slot they name, so a cursor
//! taken before a slot was recycled can never be mistaken for one taken
//! after (the ABA hazard).
use vstd::prelude::*;

verus! {

/// A cursor into the arena: a slot index together with the generation that
/// the slot had when the cursor was taken.
#[derive(Clone, Copy, Debug, PartialEq, Eq, Structural)]
pub struct TaggedIndex {
    pub index: usize,
    pub generation: u64,
}

struct Node<T> {
    value: Option<T>,
    next: Option<usize>,
    generation: u64,
}

/// The outcome of a pop that finds no element.
#[derive(Clone, Copy, Debug, PartialEq, Eq, Structural)]
pub enum QueueError {
    Empty,
}

/// The state after a pop on a queue holding `s`: the oldest element leaves,
/// or nothing changes when there is none.
pub open spec fn popped<T>(s: Seq<T>) -> (Result<T, QueueError>, Seq<T>) {
    if s.len() == 0 {
        (Err(QueueError::Empty), s)
    } else {
        (Ok(s[0]), s.drop_first())
    }
}

pub struct NodeChain<T> {
    nodes: Vec<Node<T>>,
    head: TaggedIndex,
    tail: TaggedIndex,
    retired: Vec<usize>,
    free: Vec<usize>,
    /// The slots of the chain, from the sentinel to the tail.
    links: Ghost<Seq<usize>>,
}

impl<T> View for NodeChain<T> {
    type V = Seq<T>;

    closed spec fn view(&self) -> Seq<T> {
        let l = self.links@;
        Seq::new((l.len() - 1) as nat, |k: int| self.nodes@[l[k + 1] as int].value->Some_0)
    }
}

impl<T> NodeChain<T> {
    /// Slots that are off the chain, waiting for reuse.
    closed spec fn spare(&self) -> Seq<usize> {
        self.free@ + self.retired@
    }

    pub closed spec fn wf(&self) -> bool {
        let l = self.links@;
        let n = self.nodes@;
        let s = self.spare();
        &&& l.len() >= 1
        &&& forall|k: int| 0 <= k < l.len() ==> #[trigger] l[k] < n.len()
        &&& forall|i: int, j: int| 0 <= i < j < l.len() ==> l[i] != l[j]
        &&& self.head.index == l[0]
        &&& self.tail.index == l.last()
        &&& self.head.generation == n[l[0] as int].generation
        &&& self.tail.generation == n[l.last() as int].generation
        &&& forall|k: int|
            0 <= k < l.len() - 1 ==> (#[trigger] n[l[k] as int]).next == Some(l[k + 1])
        &&& n[l.last() as int].next is None
        &&& forall|k: int| 1 <= k < l.len() ==> (#[trigger] n[l[k] as int]).value is Some
        &&& forall|j: int| 0 <= j < s.len() ==> #[trigger] s[j] < n.len() && !l.contains(s[j])
        &&& forall|i: int, j: int| 0 <= i < j < s.len() ==> s[i] != s[j]
    }

    pub fn new() -> (r: NodeChain<T>)
        ensures
            r.wf(),
            r@ == Seq::<T>::empty(),
    {
        let mut nodes: Vec<Node<T>> = Vec::new();
        nodes.push(Node { value: None, next: None, generation: 0 });
        let start = TaggedIndex { index: 0, generation: 0 };
        let ghost links = seq![0usize];
        let r = NodeChain {
            nodes,
            head: start,
            tail: start,
            retired: Vec::new(),
            free: Vec::new(),
            links: Ghost(links),
        };
        assert(r@ =~= Seq::<T>::empty());
        r
    }

    pub fn is_empty(&self) -> (r: bool)
        requires
            self.wf(),
        ensures
            r == (self@.len() == 0),
    {
        self.nodes[self.head.index].next.is_none()
    }

    /// Moves every retired slot to the free list. Called only when the free
    /// list is empty and `&mut self` proves that no operation is in flight.
    fn reclaim(&mut self)
        requires
            old(self).wf(),
        ensures
            final(self).wf(),
            final(self)@ == old(self)@,
    {
        let ghost s0 = self.spare();
        self.free.append(&mut self.retired);
        assert(self.spare() =~= s0);
    }

    /// Puts `v` in a slot that is off the chain and returns that slot.
    fn allocate(&mut self, v: T) -> (r: usize)
        requires
            old(self).wf(),
        ensures
            final(self).links@ == old(self).links@,
            final(self).head == old(self).head,
            final(self).tail == old(self).tail,
            r < final(self).nodes@.len(),
            !final(self).links@.contains(r),
            final(self).nodes@.len() >= old(self).nodes@.len(),
            final(self).nodes@[r as int].value == Some(v),
            final(self).nodes@[r as int].next is None,
            r < old(self).nodes@.len() ==> final(self).nodes@[r as int].generation
                != old(self).nodes@[r as int].generation,
            forall|i: int| 0 <= i < old(self).nodes@.len() && i != r
                ==> #[trigger] final(self).nodes@[i] == old(self).nodes@[i],
            forall|j: int| 0 <= j < final(self).spare().len()
                ==> #[trigger] final(self).spare()[j] < final(self).nodes@.len()
                && !final(self).links@.contains(final(self).spare()[j])
                && final(self).spare()[j] != r,
            forall|i: int, j: int| 0 <= i < j < final(self).spare().len()
                ==> final(self).spare()[i] != final(self).spare()[j],
    {
        let ghost s0 = self.spare();
        match self.free.pop() {
            Some(i) => {
                assert(s0[self.free@.len() as int] == i);
                assert(self.spare() =~= s0.remove(self.free@.len() as int));
                let g = self.nodes[i].generation.wrapping_add(1);
                self.nodes.set(i, Node { value: Some(v), next: None, generation: g });
                i
            },
            None => {
                let i = self.nodes.len();
                self.nodes.push(Node { value: Some(v), next: None, generation: 0 });
                i
            },
        }
    }

    pub fn push(&mut self, v: T)
        requires
            old(self).wf(),
        ensures
            final(self).wf(),
            final(self)@ == old(self)@.push(v),
    {
        if self.free.len() == 0 {
            self.reclaim();
        }
        let ghost s0 = self@;
        let ghost l0 = self.links@;
        let idx = self.allocate(v);
        let ghost s1 = self.spare();
        let t = self.tail.index;
        self.nodes[t].next = Some(idx);
        self.tail = TaggedIndex { index: idx, generation: self.nodes[idx].generation };
        self.links = Ghost(l0.push(idx));
        let ghost l = self.links@;
        let ghost s = self.spare();
        assert(s == s1);
        assert forall|k: int| 0 <= k < l.len() - 1 implies (#[trigger] self.nodes@[l[k] as int]).next
            == Some(l[k + 1]) by {
            if k < l0.len() - 1 {
                assert(l0[k] != t);
            }
        }
        assert forall|k: int| 1 <= k < l.len() implies (#[trigger] self.nodes@[l[k] as int]).value is Some by {
            if k < l0.len() {
                assert(l0[k] != idx);
            }
        }
        assert forall|j: int| 0 <= j < s.len() implies #[trigger] s[j] < self.nodes@.len()
            && !l.contains(s[j]) by {
            assert(s1[j] < self.nodes@.len() && !l0.contains(s1[j]) && s1[j] != idx);
            if l.contains(s[j]) {
                let k = choose|k: int| 0 <= k < l.len() && l[k] == s[j];
                if k < l0.len() {
                    assert(l0.contains(s[j]));
                }
            }
        }
        assert(self@ =~= s0.push(v));
    }

    pub fn pop(&mut self) -> (r: Result<T, QueueError>)
        requires
            old(self).wf(),
        ensures
            final(self).wf(),
            (r, final(self)@) == popped(old(self)@),
    {
        let h = self.head.index;
        match self.nodes[h].next {
            None => Err(QueueError::Empty),
            Some(nx) => {
                let ghost s0 = self@;
                let ghost l0 = self.links@;
                let ghost sp0 = self.spare();
                let mut out: Option<T> = None;
                std::mem::swap(&mut self.nodes[nx].value, &mut out);
                self.head = TaggedIndex { index: nx, generation: self.nodes[nx].generation };
                self.retired.push(h);
                self.links = Ghost(l0.drop_first());
                assert(self.spare() =~= sp0.push(h));
                assert(self@ =~= s0.drop_first());
                match out {
                    Some(v) => Ok(v),
                    None => Err(QueueError::Empty),
                }
            },
        }
    }
}

} // verus!
