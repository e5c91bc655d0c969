use shnn_lockfree::atomic::{AtomicCounter, AtomicFlag};
use shnn_lockfree::ordering::MemoryOrdering;
use shnn_lockfree::queue::{MPMCQueue, MPSCQueue, QueueError};
use std::sync::atomic::Ordering;

/// Basic MPSC queue operations
#[test]
fn test_mpsc_queue_basic() {
    let mut queue = MPSCQueue::new();

    // Empty queue
    assert!(queue.is_empty());
    assert!(queue.pop().is_err());

    // Single push/pop
    assert!(queue.push(42).is_ok());
    assert!(!queue.is_empty());

    let popped = queue.pop().unwrap();
    assert_eq!(popped, 42);
    assert!(queue.is_empty());
}

/// Pushing past a nominal capacity still succeeds: the queue is unbounded.
#[test]
fn test_mpsc_queue_bounded() {
    let capacity = 10;
    let mut queue = MPSCQueue::new();

    for i in 0..capacity {
        assert!(queue.push(i).is_ok());
    }

    assert!(!queue.is_empty());
    assert!(queue.push(capacity).is_ok());

    assert_eq!(queue.pop().unwrap(), 0);
    assert!(!queue.is_empty());
}

/// Basic MPMC queue operations
#[test]
fn test_lockfree_queue_basic() {
    let mut queue = MPMCQueue::new();

    assert!(queue.is_empty());
    assert!(queue.pop().is_err());

    assert!(queue.push(100).is_ok());
    assert!(!queue.is_empty());

    let item = queue.pop().unwrap();
    assert_eq!(item, 100);
    assert!(queue.is_empty());
}

/// Atomic counter operations
#[test]
fn test_atomic_counter() {
    let counter = AtomicCounter::new(42);

    assert_eq!(counter.load(MemoryOrdering::SeqCst.into()), 42);

    counter.store(84, MemoryOrdering::SeqCst.into());
    assert_eq!(counter.load(MemoryOrdering::SeqCst.into()), 84);

    let old_value = counter.increment();
    assert_eq!(old_value, 84);
    assert_eq!(counter.load(MemoryOrdering::SeqCst.into()), 85);
}

/// Atomic flag operations
#[test]
fn test_atomic_flag() {
    let flag = AtomicFlag::new(false);

    assert!(!flag.load(MemoryOrdering::SeqCst.into()));

    flag.store(true, MemoryOrdering::SeqCst.into());
    assert!(flag.load(MemoryOrdering::SeqCst.into()));

    flag.store(false, MemoryOrdering::SeqCst.into());
    assert!(!flag.load(MemoryOrdering::SeqCst.into()));
}

/// A queue of owned strings drops cleanly with elements still inside.
#[test]
fn test_memory_cleanup() {
    let initial_items = 1000;

    {
        let mut queue = MPSCQueue::new();

        for i in 0..initial_items {
            let _ = queue.push(format!("item_{}", i));
        }

        for _ in 0..initial_items / 2 {
            let _ = queue.pop();
        }
    }

    assert!(true);
}

/// Edge cases
#[test]
fn test_edge_cases() {
    let mut empty_queue: MPSCQueue<i32> = MPSCQueue::new();
    assert!(empty_queue.pop().is_err());
    assert!(empty_queue.is_empty());

    let mut large_queue = MPSCQueue::new();
    assert!(large_queue.push(42).is_ok());
    assert_eq!(large_queue.pop().unwrap(), 42);

    let mut cycle_queue = MPSCQueue::new();
    for _ in 0..10000 {
        assert!(cycle_queue.push(1).is_ok());
        assert_eq!(cycle_queue.pop().unwrap(), 1);
    }
}

#[test]
fn interleaved_producers_are_drained_once_each() {
    let mut queue = MPSCQueue::new();
    let producers = 4usize;
    let per_producer = 1000usize;
    // Round-robin interleaving of the producers' pushes.
    for i in 0..per_producer {
        for p in 0..producers {
            assert!(queue.push(p * per_producer + i).is_ok());
        }
    }
    let mut collected = Vec::new();
    while let Ok(item) = queue.pop() {
        collected.push(item);
    }
    assert_eq!(collected.len(), producers * per_producer);
    // Each producer's items come out in the order it pushed them.
    for p in 0..producers {
        let mine: Vec<usize> = collected.iter().copied().filter(|v| v / per_producer == p).collect();
        let expected: Vec<usize> = (0..per_producer).map(|i| p * per_producer + i).collect();
        assert_eq!(mine, expected);
    }
    collected.sort_unstable();
    for (i, &item) in collected.iter().enumerate() {
        assert_eq!(item, i);
    }
}

#[test]
fn fresh_queues_report_empty() {
    let mut a: MPSCQueue<u8> = MPSCQueue::new();
    let mut b: MPMCQueue<u8> = MPMCQueue::new();
    assert!(a.is_empty());
    assert!(b.is_empty());
    assert_eq!(a.pop(), Err(QueueError::Empty));
    assert_eq!(b.pop(), Err(QueueError::Empty));
    assert!(a.is_empty());
}

#[test]
fn push_then_pop_round_trips() {
    let mut q = MPMCQueue::new();
    assert!(q.push(String::from("payload")).is_ok());
    assert_eq!(q.pop(), Ok(String::from("payload")));
    assert!(q.is_empty());
    assert_eq!(q.pop(), Err(QueueError::Empty));
}

#[test]
fn fifo_order_across_reused_nodes() {
    let mut q = MPMCQueue::new();
    for i in 0..5 {
        q.push(i).unwrap();
    }
    for i in 0..3 {
        assert_eq!(q.pop(), Ok(i));
    }
    // These pushes reuse the retired nodes.
    for i in 5..12 {
        q.push(i).unwrap();
    }
    let mut out = Vec::new();
    while let Ok(v) = q.pop() {
        out.push(v);
    }
    assert_eq!(out, vec![3, 4, 5, 6, 7, 8, 9, 10, 11]);
}

#[test]
fn recycled_entries_are_never_lost_or_duplicated() {
    let mut queue = MPSCQueue::new();
    for i in 0..10u32 {
        queue.push(i).unwrap();
    }
    let mut next_new = 100u32;
    for round in 0..1000u32 {
        if round % 2 == 0 {
            // Pop and re-push the same value at once.
            let v = queue.pop().unwrap();
            queue.push(v).unwrap();
        } else {
            queue.push(next_new).unwrap();
            next_new += 1;
        }
    }
    let mut out = Vec::new();
    while let Ok(v) = queue.pop() {
        out.push(v);
    }
    out.sort_unstable();
    let mut expected: Vec<u32> = (0..10).collect();
    expected.extend(100..next_new);
    assert_eq!(out, expected);
}

#[test]
fn counter_fetch_add_returns_previous_and_wraps() {
    let c = AtomicCounter::new(u64::MAX);
    assert_eq!(c.fetch_add(2, MemoryOrdering::AcqRel), u64::MAX);
    assert_eq!(c.load(MemoryOrdering::Relaxed), 1);
    assert_eq!(c.increment(), 1);
    assert_eq!(c.load(MemoryOrdering::Acquire), 2);
}

#[test]
fn cells_accept_every_ordering_for_loads_and_stores() {
    let all = [
        MemoryOrdering::Relaxed,
        MemoryOrdering::Acquire,
        MemoryOrdering::Release,
        MemoryOrdering::AcqRel,
        MemoryOrdering::SeqCst,
    ];
    let c = AtomicCounter::new(0);
    let f = AtomicFlag::new(false);
    for (i, o) in all.iter().enumerate() {
        c.store(i as u64, *o);
        assert_eq!(c.load(*o), i as u64);
        f.store(i % 2 == 0, *o);
        assert_eq!(f.load(*o), i % 2 == 0);
    }
}

#[test]
fn orderings_translate_to_native_ones() {
    assert_eq!(Ordering::from(MemoryOrdering::Relaxed), Ordering::Relaxed);
    assert_eq!(Ordering::from(MemoryOrdering::Acquire), Ordering::Acquire);
    assert_eq!(Ordering::from(MemoryOrdering::Release), Ordering::Release);
    assert_eq!(Ordering::from(MemoryOrdering::AcqRel), Ordering::AcqRel);
    let native: Ordering = MemoryOrdering::SeqCst.into();
    assert_eq!(native, Ordering::SeqCst);

    assert_eq!(MemoryOrdering::Release.for_load(), Ordering::Relaxed);
    assert_eq!(MemoryOrdering::AcqRel.for_load(), Ordering::Acquire);
    assert_eq!(MemoryOrdering::SeqCst.for_load(), Ordering::SeqCst);
    assert_eq!(MemoryOrdering::Acquire.for_store(), Ordering::Relaxed);
    assert_eq!(MemoryOrdering::AcqRel.for_store(), Ordering::Release);
    assert_eq!(MemoryOrdering::Relaxed.for_store(), Ordering::Relaxed);
}

#[test]
fn release_store_then_acquire_load_sees_payload() {
    let payload = AtomicCounter::new(0);
    let ready = AtomicFlag::new(false);
    payload.store(42, MemoryOrdering::Release);
    ready.store(true, MemoryOrdering::Release);
    while !ready.load(MemoryOrdering::Acquire) {}
    assert_eq!(payload.load(MemoryOrdering::Acquire), 42);
}
