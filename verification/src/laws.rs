//! The laws the event queue obeys, stated over the abstract queue model
//! (the pending multiset and the release clock) and proved once for every
//! sequence of operations.
//!
//! Each law quantifies over runs of the queue described by the step
//! predicates that the queue's own contracts establish, so anything the laws
//! conclude holds of every sequence of calls — including the sequential
//! history that the concurrent wrapper's lock serializes shared access into.

use vstd::prelude::*;
use vstd::multiset::Multiset;
use crate::event::{comparable, Event};
use crate::event_queue::{
    pop_empty, pop_released, push_accepted, EventQueue,
};

verus! {

broadcast use vstd::multiset::group_multiset_axioms;

/// One observable operation on the queue.
pub enum QueueOp {
    /// An accepted push, carrying the pushed event.
    Push(Event),
    /// A pop that released the carried event.
    Release(Event),
    /// A pop of the empty queue, reporting the benign "empty" signal.
    EmptyPop,
}

/// Whether the operation `op` takes the queue from `pre` to `post`.
pub open spec fn op_step(pre: EventQueue, post: EventQueue, op: QueueOp) -> bool {
    match op {
        QueueOp::Push(e) => push_accepted(pre, post, e),
        QueueOp::Release(e) => pop_released(pre, post, e),
        QueueOp::EmptyPop => pop_empty(pre, post),
    }
}

/// Whether the queue can go from `a` to `b` in one call: an operation, or
/// nothing observable (a peek, or a rejected push or pop, all of which leave
/// the queue untouched).
pub open spec fn queue_step(a: EventQueue, b: EventQueue) -> bool {
    ||| exists|op: QueueOp| #[trigger] op_step(a, b, op)
    ||| b == a
}

/// Whether the queue can go from `a` to `b` in `n` calls.
pub open spec fn queue_evolves(a: EventQueue, b: EventQueue, n: nat) -> bool
    decreases n,
{
    if n == 0 {
        a == b
    } else {
        exists|m: EventQueue| #[trigger] queue_step(a, m) && queue_evolves(m, b, (n - 1) as nat)
    }
}

/// A run of the queue: `states` records the queue before and after each of
/// the operations in `ops`.
pub open spec fn queue_run(states: Seq<EventQueue>, ops: Seq<QueueOp>) -> bool {
    &&& states.len() == ops.len() + 1
    &&& forall|i: int| 0 <= i < ops.len() ==> op_step(states[i], states[i + 1], #[trigger] ops[i])
}

/// How many operations of `ops` are accepted pushes.
pub open spec fn count_pushes(ops: Seq<QueueOp>) -> int
    decreases ops.len(),
{
    if ops.len() == 0 {
        0
    } else {
        count_pushes(ops.drop_last()) + if ops.last() is Push {
            1int
        } else {
            0int
        }
    }
}

/// How many operations of `ops` released an event.
pub open spec fn count_releases(ops: Seq<QueueOp>) -> int
    decreases ops.len(),
{
    if ops.len() == 0 {
        0
    } else {
        count_releases(ops.drop_last()) + if ops.last() is Release {
            1int
        } else {
            0int
        }
    }
}

/// No single call moves the release clock backward.
pub proof fn lemma_step_monotonic(a: EventQueue, b: EventQueue)
    requires
        queue_step(a, b),
    ensures
        a.last_released().nanos <= b.last_released().nanos,
{
    if b != a {
        let op = choose|op: QueueOp| op_step(a, b, op);
        match op {
            QueueOp::Push(_) => {},
            QueueOp::Release(_) => {},
            QueueOp::EmptyPop => {},
        }
    }
}

/// Over any number of calls, the release clock never moves backward.
pub proof fn lemma_evolves_monotonic(a: EventQueue, b: EventQueue, n: nat)
    requires
        queue_evolves(a, b, n),
    ensures
        a.last_released().nanos <= b.last_released().nanos,
    decreases n,
{
    if n > 0 {
        let m = choose|m: EventQueue|
            #[trigger] queue_step(a, m) && queue_evolves(m, b, (n - 1) as nat);
        lemma_step_monotonic(a, m);
        lemma_evolves_monotonic(m, b, (n - 1) as nat);
    }
}

/// Ordering and monotonic release: once an event has been released, no
/// later pop — however many pushes, pops and peeks lie between — releases an
/// event with an earlier timestamp. Repeated pops therefore yield timestamps
/// in non-decreasing order until the queue is empty.
pub proof fn lemma_release_monotonic(
    q0: EventQueue,
    q1: EventQueue,
    q2: EventQueue,
    q3: EventQueue,
    e1: Event,
    e2: Event,
    n: nat,
)
    requires
        pop_released(q0, q1, e1),
        queue_evolves(q1, q2, n),
        pop_released(q2, q3, e2),
    ensures
        e1.time.nanos <= e2.time.nanos,
{
    lemma_evolves_monotonic(q1, q2, n);
}

/// Along any run, the release clock never moves backward.
pub proof fn lemma_run_monotonic(states: Seq<EventQueue>, ops: Seq<QueueOp>, a: int, b: int)
    requires
        queue_run(states, ops),
        0 <= a <= b < states.len(),
    ensures
        states[a].last_released().nanos <= states[b].last_released().nanos,
    decreases b - a,
{
    if a < b {
        assert(op_step(states[a], states[a + 1], ops[a]));
        lemma_step_monotonic(states[a], states[a + 1]);
        lemma_run_monotonic(states, ops, a + 1, b);
    }
}

/// Ordering property: in any run, the released events carry non-decreasing
/// timestamps in release order — `t_0 <= t_1 <= t_2 <= ...` until the queue
/// is empty.
pub proof fn lemma_releases_sorted(
    states: Seq<EventQueue>,
    ops: Seq<QueueOp>,
    i: int,
    j: int,
    e1: Event,
    e2: Event,
)
    requires
        queue_run(states, ops),
        0 <= i < j < ops.len(),
        ops[i] == QueueOp::Release(e1),
        ops[j] == QueueOp::Release(e2),
    ensures
        e1.time.nanos <= e2.time.nanos,
{
    assert(op_step(states[i], states[i + 1], ops[i]));
    assert(op_step(states[j], states[j + 1], ops[j]));
    lemma_run_monotonic(states, ops, i + 1, j);
}

/// Cardinality conservation: across any run, the number of pending events
/// changes by exactly the number of accepted pushes minus the number of
/// releases; no operation loses or duplicates an event.
pub proof fn lemma_cardinality_conservation(states: Seq<EventQueue>, ops: Seq<QueueOp>)
    requires
        queue_run(states, ops),
    ensures
        states.last().pending().len() == states.first().pending().len() + count_pushes(ops)
            - count_releases(ops),
    decreases ops.len(),
{
    if ops.len() == 0 {
        assert(states.last() == states.first());
    } else {
        let sp = states.drop_last();
        let opp = ops.drop_last();
        assert forall|i: int| 0 <= i < opp.len() implies op_step(
            sp[i],
            sp[i + 1],
            #[trigger] opp[i],
        ) by {
            assert(op_step(states[i], states[i + 1], ops[i]));
        }
        lemma_cardinality_conservation(sp, opp);
        let k = ops.len() - 1;
        assert(op_step(states[k], states[k + 1], ops[k]));
        match ops[k] {
            QueueOp::Push(e) => {
                assert(states[k + 1].pending().len() == states[k].pending().len() + 1);
            },
            QueueOp::Release(e) => {
                let m = states[k].pending();
                assert forall|v: Event| Multiset::singleton(e).count(v) <= m.count(v) by {
                    if v != e {
                        assert(Multiset::singleton(e).count(v) == 0);
                    }
                }
                assert(Multiset::singleton(e).subset_of(m));
                assert(states[k + 1].pending().len() == states[k].pending().len() - 1);
            },
            QueueOp::EmptyPop => {},
        }
        assert(states.last() == states[k + 1]);
        assert(sp.last() == states[k]);
        assert(sp.first() == states.first());
    }
}

/// Conservation from an empty queue: exactly (pushes − releases) events
/// remain pending after any run, and once the queue has drained, every
/// accepted push has been matched by exactly one release — the count of
/// events out equals the count of events in.
pub proof fn lemma_conservation_from_empty(states: Seq<EventQueue>, ops: Seq<QueueOp>)
    requires
        queue_run(states, ops),
        states.first().pending().len() == 0,
    ensures
        states.last().pending().len() == count_pushes(ops) - count_releases(ops),
        states.last().pending().len() == 0 ==> count_releases(ops) == count_pushes(ops),
{
    lemma_cardinality_conservation(states, ops);
}

/// In a run from an empty queue, events remain pending exactly when
/// strictly more pushes than releases have been accepted — so a peek
/// reports a next event if and only if pushes outnumber releases.
pub proof fn lemma_pending_iff_more_pushes(states: Seq<EventQueue>, ops: Seq<QueueOp>)
    requires
        queue_run(states, ops),
        states.first().pending().len() == 0,
    ensures
        states.last().pending().len() > 0 <==> count_pushes(ops) > count_releases(ops),
{
    lemma_cardinality_conservation(states, ops);
}

/// Empty-queue idempotence: a pop of the empty queue has no side effect, so
/// it can be repeated any number of times, always reporting "empty".
pub proof fn lemma_empty_pop_idempotent(pre: EventQueue, post: EventQueue)
    requires
        pop_empty(pre, post),
    ensures
        post == pre,
        pop_empty(post, post),
{
}

/// Fatal on incomparable: while an accepted event is still pending, no push
/// of an event with no relative order against it can be accepted — the queue
/// reports the comparability defect instead of choosing an arbitrary order.
pub proof fn lemma_incomparable_rejected(q0: EventQueue, q1: EventQueue, a: Event, b: Event)
    requires
        push_accepted(q0, q1, a),
        !comparable(b, a),
    ensures
        forall|q2: EventQueue| !push_accepted(q1, q2, b),
{
    assert(q1.pending().count(a) > 0);
    assert forall|q2: EventQueue| !push_accepted(q1, q2, b) by {
        if push_accepted(q1, q2, b) {
            assert(comparable(b, a));
        }
    }
}

} // verus!
