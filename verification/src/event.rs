//! Scheduled events and their ordering contract.
//!
//! An event binds an opaque payload to the timestamp at which it is to be
//! released. Events are compared primarily by timestamp; events at equal
//! timestamps are ranked by an optional secondary key supplied by their
//! producers. A pair of events where only one side carries a secondary key
//! has no relative order at all — that is a producer defect the queue
//! surfaces as fatal rather than resolving arbitrarily.

use vstd::prelude::*;
use vstd::std_specs::cmp::{PartialEqSpec, PartialOrdSpec};
use core::cmp::Ordering;
use crate::emulated_time::EmulatedTime;

verus! {

/// The secondary ordering key of an event, used to rank events that share a
/// timestamp. Producers that need a deterministic release order among
/// simultaneous events tag each of them with a key; untagged simultaneous
/// events rank equal among themselves, and their release order is
/// unspecified.
#[derive(Clone, Copy, PartialEq, Eq, Structural, Debug)]
pub enum TieBreaker {
    /// No secondary key: ranks equal to any other untagged event at the same
    /// time, and has no relative order against a tagged one.
    Unkeyed,
    /// A deterministic secondary key.
    Keyed(u64),
}

/// One unit of scheduled work: a payload (opaque to the scheduler) bound to
/// the timestamp at which it may be released. Once pushed, an event is
/// exclusively owned by the queue until popped, so the type is deliberately
/// neither `Copy` nor `Clone`.
#[derive(Debug)]
pub struct Event {
    /// The simulated time at which the event is to be released.
    pub time: EmulatedTime,
    /// The secondary ordering key, ranking events that share a timestamp.
    pub tie_breaker: TieBreaker,
    /// The scheduled work itself; the queue never inspects it.
    pub payload: u64,
}

/// The relative order of two events, where one exists: primarily by
/// timestamp, then by secondary key. `None` means the pair cannot be placed
/// in any order — a producer defect.
pub open spec fn event_order(a: Event, b: Event) -> Option<Ordering> {
    if a.time.nanos < b.time.nanos {
        Some(Ordering::Less)
    } else if b.time.nanos < a.time.nanos {
        Some(Ordering::Greater)
    } else {
        match (a.tie_breaker, b.tie_breaker) {
            (TieBreaker::Keyed(x), TieBreaker::Keyed(y)) => if x < y {
                Some(Ordering::Less)
            } else if y < x {
                Some(Ordering::Greater)
            } else {
                Some(Ordering::Equal)
            },
            (TieBreaker::Unkeyed, TieBreaker::Unkeyed) => Some(Ordering::Equal),
            _ => None,
        }
    }
}

/// Whether two events can be placed in a relative order at all.
pub open spec fn comparable(a: Event, b: Event) -> bool {
    event_order(a, b) is Some
}

/// Whether `a` orders at-or-before `b` under the full event order.
pub open spec fn event_le(a: Event, b: Event) -> bool {
    event_order(a, b) == Some(Ordering::Less) || event_order(a, b) == Some(Ordering::Equal)
}

/// Comparability is symmetric: the two sides of a pair agree on whether they
/// have a relative order.
pub proof fn lemma_comparable_sym(a: Event, b: Event)
    ensures
        comparable(a, b) <==> comparable(b, a),
{
}

/// The full event order is reflexive.
pub proof fn lemma_event_le_refl(a: Event)
    ensures
        event_le(a, a),
{
}

/// The full event order flips under exchange of its sides.
pub proof fn lemma_event_order_flip(a: Event, b: Event)
    ensures
        event_order(a, b) == Some(Ordering::Less) <==> event_order(b, a) == Some(Ordering::Greater),
        event_order(a, b) == Some(Ordering::Equal) <==> event_order(b, a) == Some(Ordering::Equal),
{
}

/// The full event order is transitive.
pub proof fn lemma_event_le_trans(a: Event, b: Event, c: Event)
    requires
        event_le(a, b),
        event_le(b, c),
    ensures
        event_le(a, c),
{
}

/// Ordering at-or-before under the full event order implies ordering
/// at-or-before by timestamp.
pub proof fn lemma_event_le_time(a: Event, b: Event)
    requires
        event_le(a, b),
    ensures
        a.time.nanos <= b.time.nanos,
{
}

impl Event {
    /// Bind a payload to the time at which it is to be released.
    pub fn new(time: EmulatedTime, tie_breaker: TieBreaker, payload: u64) -> (e: Event)
        ensures
            e.time == time,
            e.tie_breaker == tie_breaker,
            e.payload == payload,
    {
        Event { time, tie_breaker, payload }
    }

    /// The simulated time at which the event is to be released.
    pub fn time(&self) -> (t: EmulatedTime)
        ensures
            t == self.time,
    {
        self.time
    }

    /// The opaque payload.
    pub fn payload(&self) -> (p: u64)
        ensures
            p == self.payload,
    {
        self.payload
    }
}

impl PartialEq for Event {
    /// Events compare equal when their comparison keys (timestamp and
    /// secondary key) are equal; the payload takes no part in the ordering
    /// contract, so equal-key events with distinct payloads are legal and
    /// compare equal.
    fn eq(&self, other: &Self) -> (r: bool) {
        self.time.nanos == other.time.nanos && self.tie_breaker == other.tie_breaker
    }
}

impl vstd::std_specs::cmp::PartialEqSpecImpl for Event {
    open spec fn obeys_eq_spec() -> bool {
        true
    }

    open spec fn eq_spec(&self, other: &Self) -> bool {
        event_order(*self, *other) == Some(Ordering::Equal)
    }
}

impl Eq for Event {

}

impl PartialOrd for Event {
    /// The executable mirror of [`event_order`]: `None` reports that the
    /// pair has no relative order.
    fn partial_cmp(&self, other: &Self) -> (r: Option<Ordering>) {
        if self.time.nanos < other.time.nanos {
            Some(Ordering::Less)
        } else if other.time.nanos < self.time.nanos {
            Some(Ordering::Greater)
        } else {
            match (self.tie_breaker, other.tie_breaker) {
                (TieBreaker::Keyed(x), TieBreaker::Keyed(y)) => if x < y {
                    Some(Ordering::Less)
                } else if y < x {
                    Some(Ordering::Greater)
                } else {
                    Some(Ordering::Equal)
                },
                (TieBreaker::Unkeyed, TieBreaker::Unkeyed) => Some(Ordering::Equal),
                _ => None,
            }
        }
    }
}

impl vstd::std_specs::cmp::PartialOrdSpecImpl for Event {
    open spec fn obeys_partial_cmp_spec() -> bool {
        true
    }

    open spec fn partial_cmp_spec(&self, other: &Self) -> Option<Ordering> {
        event_order(*self, *other)
    }
}

} // verus!
