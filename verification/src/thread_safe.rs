//! The concurrent access wrapper: one event queue shared by any number of
//! worker threads, every operation serialized behind a single lock.
//!
//! Each public operation is one critical section that delegates directly to
//! the ordering core, so no interleaving of two distinct logical operations
//! is ever observable and the single, globally agreed release order is
//! preserved. The lock maintains the queue's well-formedness invariant, and
//! — because the guarded operations are verified never to panic — it can
//! never be left poisoned by a panic inside a critical section.
//!
//! Because the queue is shared, per-call contracts here can only constrain
//! the returned values; the state-transition guarantees (ordering, monotonic
//! release, conservation) are those of [`EventQueue`]'s own contracts, which
//! hold of the sequential history the lock serializes the calls into — see
//! the laws in [`crate::laws`].

use vstd::prelude::*;
use vstd::rwlock::{RwLock, RwLockPredicate};
use crate::emulated_time::EmulatedTime;
use crate::event::Event;
use crate::event_queue::{EventQueue, FatalDefect};

verus! {

/// The invariant the shared lock maintains: the guarded queue is
/// well-formed, so every comparison it performs resolves definitely.
pub struct QueueWf;

impl RwLockPredicate<EventQueue> for QueueWf {
    open spec fn inv(self, q: EventQueue) -> bool {
        q.wf()
    }
}

/// A wrapper for [`EventQueue`] that uses interior mutability behind a lock
/// so that multiple threads can push, pop and peek against one shared queue
/// without external synchronization.
pub struct ThreadSafeEventQueue {
    event_queue: RwLock<EventQueue, QueueWf>,
}

impl ThreadSafeEventQueue {
    /// A new, empty, independently owned shared queue.
    pub fn new() -> (s: Self) {
        ThreadSafeEventQueue {
            event_queue: RwLock::new(EventQueue::new(), Ghost(QueueWf)),
        }
    }

    /// Push a new event onto the shared queue, in one critical section.
    ///
    /// An event with no relative order against a resident event is reported
    /// as the fatal comparability defect, naming the pushed event's time,
    /// and the queue is left untouched.
    pub fn push(&self, event: Event) -> (r: Result<(), FatalDefect>)
        ensures
            match r {
                Ok(()) => true,
                Err(d) => d matches FatalDefect::IncomparableEvents { pushed_time, .. }
                    && pushed_time == event.time,
            },
    {
        let (mut q, handle) = self.event_queue.acquire_write();
        let r = q.push(event);
        handle.release_write(q);
        r
    }

    /// Pop the earliest event from the shared queue, in one critical
    /// section.
    ///
    /// Returns `Ok(None)` on an empty queue; a release that would move the
    /// simulation clock backward is reported as the fatal time-regression
    /// defect, naming both offending timestamps, and releases nothing.
    pub fn pop(&self) -> (r: Result<Option<Event>, FatalDefect>)
        ensures
            match r {
                Ok(_) => true,
                Err(d) => d matches FatalDefect::TimeRegression { event_time, last_released }
                    && event_time.nanos < last_released.nanos,
            },
    {
        let (mut q, handle) = self.event_queue.acquire_write();
        let r = q.pop();
        handle.release_write(q);
        r
    }

    /// The time of the earliest event in the shared queue — the time some
    /// pending event carried at the moment the lock was held, with no
    /// pending event earlier — or `None` if the queue was empty then.
    ///
    /// The queue is shared, so no contract can relate the result to a state
    /// a caller could name; the relation to the guarded state is exactly
    /// [`EventQueue::next_event_time`]'s contract, applied at the moment the
    /// lock was held.
    pub fn next_event_time(&self) -> (r: Option<EmulatedTime>) {
        let handle = self.event_queue.acquire_read();
        let r = handle.borrow().next_event_time();
        handle.release_read();
        r
    }
}

} // verus!
