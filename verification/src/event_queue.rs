//! The event ordering and release core: a min-ordered queue of pending
//! events, the monotonic-release invariant enforced on every release, and the
//! total-order contract its elements must satisfy.
//!
//! The queue owns the pending events (pushed in, popped out) together with
//! the timestamp of the most recently released event. The two producer
//! defects the core can observe — a pair of events with no relative order,
//! and an event whose release would move the simulation clock backward — are
//! reported as explicit [`FatalDefect`] values rather than resolved silently.

use vstd::prelude::*;
use vstd::multiset::Multiset;
use vstd::std_specs::cmp::PartialOrdSpec;
use core::cmp::Ordering;
use crate::emulated_time::EmulatedTime;
use crate::event::{
    comparable, event_le, event_order, lemma_comparable_sym, lemma_event_le_refl,
    lemma_event_le_time, lemma_event_le_trans, lemma_event_order_flip, Event,
};

verus! {

broadcast use {vstd::seq_lib::group_to_multiset_ensures, vstd::multiset::group_multiset_axioms};

/// An unrecoverable producer defect observed by the queue. Both variants
/// carry the offending timestamps so a diagnostic can name them; neither is
/// ever resolved internally — the simulation run must stop.
#[derive(Clone, Copy, PartialEq, Eq, Structural, Debug)]
pub enum FatalDefect {
    /// A pushed event has no relative order against a resident event: the
    /// event universe is not totally ordered, so no sensible release order
    /// exists.
    IncomparableEvents { pushed_time: EmulatedTime, resident_time: EmulatedTime },
    /// The earliest pending event lies before the most recently released
    /// timestamp: releasing it would move the simulation clock backward.
    TimeRegression { event_time: EmulatedTime, last_released: EmulatedTime },
}

/// Adapter that promotes a partially ordered type to a total comparison.
/// A pair with no relative order is a contract violation of the wrapped
/// type's producers; [`PanickingOrd::try_cmp`] surfaces it to the caller,
/// which must treat it as fatal rather than invent an order.
#[derive(Debug, Default, Copy, Clone, PartialEq, Eq)]
pub struct PanickingOrd<T: PartialOrd + Eq>(pub T);

impl<T: PartialOrd + Eq> PanickingOrd<T> {
    /// Hand the wrapped value back out.
    pub fn into_inner(self) -> (r: T)
        ensures
            r == self.0,
    {
        self.0
    }

    /// Compare the wrapped values. `None` reports that the pair has no
    /// relative order — the fatal comparability defect.
    pub fn try_cmp(&self, other: &Self) -> (r: Option<Ordering>)
        ensures
            T::obeys_partial_cmp_spec() ==> r == self.0.partial_cmp_spec(&other.0),
    {
        self.0.partial_cmp(&other.0)
    }
}

impl<T: PartialOrd + Eq> From<T> for PanickingOrd<T> {
    fn from(x: T) -> (r: Self) {
        PanickingOrd(x)
    }
}

impl<T: PartialOrd + Eq> vstd::std_specs::convert::FromSpecImpl<T> for PanickingOrd<T> {
    open spec fn obeys_from_spec() -> bool {
        true
    }

    open spec fn from_spec(x: T) -> Self {
        PanickingOrd(x)
    }
}

/// A queue of events ordered by their times, plus the timestamp of the most
/// recently released event, which releases may never precede.
#[derive(Debug)]
pub struct EventQueue {
    queue: Vec<PanickingOrd<Event>>,
    last_popped_event_time: EmulatedTime,
}

/// Whether `t` is the time of an earliest pending event: some pending event
/// carries it, and no pending event is earlier.
pub open spec fn time_is_min(s: Multiset<Event>, t: EmulatedTime) -> bool {
    &&& exists|e: Event| #[trigger] s.count(e) > 0 && e.time == t
    &&& forall|e: Event| #[trigger] s.count(e) > 0 ==> t.nanos <= e.time.nanos
}

/// One accepted push: `ev` was comparable against every resident event and
/// joined the pending set; the release clock did not move.
pub open spec fn push_accepted(pre: EventQueue, post: EventQueue, ev: Event) -> bool {
    &&& forall|f: Event| #[trigger] pre.pending().count(f) > 0 ==> comparable(ev, f)
    &&& post.pending() == pre.pending().insert(ev)
    &&& post.last_released() == pre.last_released()
}

/// One rejected push: `ev` has no relative order against some resident event
/// (whose time the defect names), and the queue is left untouched.
pub open spec fn push_rejected(pre: EventQueue, post: EventQueue, ev: Event, d: FatalDefect) -> bool {
    &&& post == pre
    &&& match d {
        FatalDefect::IncomparableEvents { pushed_time, resident_time } => {
            &&& pushed_time == ev.time
            &&& exists|f: Event|
                #[trigger] pre.pending().count(f) > 0 && !comparable(ev, f) && f.time
                    == resident_time
        },
        FatalDefect::TimeRegression { .. } => false,
    }
}

/// One successful release: `ev` was pending, no pending event ordered before
/// it, its time does not precede the last released time, it left the pending
/// set, and the release clock advanced to its time.
pub open spec fn pop_released(pre: EventQueue, post: EventQueue, ev: Event) -> bool {
    &&& pre.pending().count(ev) > 0
    &&& forall|f: Event| #[trigger] pre.pending().count(f) > 0 ==> event_le(ev, f)
    &&& forall|f: Event| #[trigger] pre.pending().count(f) > 0 ==> ev.time.nanos <= f.time.nanos
    &&& pre.last_released().nanos <= ev.time.nanos
    &&& post.pending() == pre.pending().remove(ev)
    &&& post.last_released() == ev.time
}

/// A pop of an empty queue: the benign "empty" signal, with no side effect.
pub open spec fn pop_empty(pre: EventQueue, post: EventQueue) -> bool {
    &&& pre.pending().len() == 0
    &&& post == pre
}

/// A pop refused because the earliest pending event lies behind the release
/// clock; the queue is left untouched.
pub open spec fn pop_regressed(pre: EventQueue, post: EventQueue, d: FatalDefect) -> bool {
    &&& post == pre
    &&& match d {
        FatalDefect::TimeRegression { event_time, last_released } => {
            &&& time_is_min(pre.pending(), event_time)
            &&& event_time.nanos < pre.last_released().nanos
            &&& last_released == pre.last_released()
        },
        FatalDefect::IncomparableEvents { .. } => false,
    }
}

/// Whether every pair of events in `s` has a relative order.
spec fn pairwise_comparable(s: Seq<Event>) -> bool {
    forall|i: int, j: int|
        0 <= i < s.len() && 0 <= j < s.len() ==> comparable(#[trigger] s[i], #[trigger] s[j])
}

impl EventQueue {
    /// The pending events in the queue's internal order.
    spec fn pending_seq(self) -> Seq<Event> {
        self.queue@.map_values(|p: PanickingOrd<Event>| p.0)
    }

    /// The multiset of pending events. Only the collection is observable:
    /// the internal order carries no meaning.
    pub closed spec fn pending(self) -> Multiset<Event> {
        self.pending_seq().to_multiset()
    }

    /// The timestamp of the most recently released event, or simulation
    /// start if nothing has been released yet. Releases never precede it.
    pub closed spec fn last_released(self) -> EmulatedTime {
        self.last_popped_event_time
    }

    /// The queue's invariant: every pair of pending events has a relative
    /// order, so every comparison the queue performs resolves definitely.
    pub open spec fn wf(self) -> bool {
        forall|a: Event, b: Event|
            #[trigger] self.pending().count(a) > 0 && #[trigger] self.pending().count(b) > 0
                ==> comparable(a, b)
    }

    proof fn lemma_wf_iff(self)
        ensures
            self.wf() <==> pairwise_comparable(self.pending_seq()),
    {
        let s = self.pending_seq();
        if self.wf() {
            assert forall|i: int, j: int|
                0 <= i < s.len() && 0 <= j < s.len() implies comparable(#[trigger] s[i], #[trigger] s[j]) by {
                assert(s.contains(s[i]));
                assert(s.contains(s[j]));
                assert(self.pending().count(s[i]) > 0);
                assert(self.pending().count(s[j]) > 0);
            }
        }
        if pairwise_comparable(s) {
            assert forall|a: Event, b: Event|
                #[trigger] self.pending().count(a) > 0 && #[trigger] self.pending().count(b) > 0
                    implies comparable(a, b) by {
                assert(s.contains(a));
                assert(s.contains(b));
                let i = choose|i: int| 0 <= i < s.len() && s[i] == a;
                let j = choose|j: int| 0 <= j < s.len() && s[j] == b;
                assert(comparable(s[i], s[j]));
            }
        }
    }

    /// A new, empty queue, with the release clock at simulation start.
    pub fn new() -> (q: Self)
        ensures
            q.pending() == Multiset::<Event>::empty(),
            q.last_released().nanos == 0,
            q.wf(),
    {
        let q = EventQueue { queue: Vec::new(), last_popped_event_time: EmulatedTime::simulation_start() };
        proof {
            assert(q.pending_seq() =~= Seq::<Event>::empty());
            assert(q.pending().len() == 0);
            assert(q.pending() =~= Multiset::<Event>::empty());
        }
        q
    }

    /// Push a new event onto the queue.
    ///
    /// The event must be comparable against every resident event; a pair
    /// with no relative order is reported as the fatal comparability defect
    /// and the queue is left untouched. Events whose keys compare equal are
    /// legal; their eventual release order among themselves is unspecified.
    pub fn push(&mut self, event: Event) -> (r: Result<(), FatalDefect>)
        requires
            old(self).wf(),
        ensures
            final(self).wf(),
            match r {
                Ok(()) => push_accepted(*old(self), *final(self), event),
                Err(d) => push_rejected(*old(self), *final(self), event, d),
            },
    {
        let po = PanickingOrd::from(event);
        let pushed_time = po.0.time;
        let mut i: usize = 0;
        while i < self.queue.len()
            invariant
                old(self).wf(),
                *self == *old(self),
                po.0 == event,
                pushed_time == event.time,
                0 <= i <= self.queue@.len(),
                forall|j: int| 0 <= j < i ==> comparable(event, #[trigger] self.pending_seq()[j]),
            decreases self.queue@.len() - i,
        {
            let resident_time = self.queue[i].0.time;
            let c = po.try_cmp(&self.queue[i]);
            if c.is_none() {
                proof {
                    let s = old(self).pending_seq();
                    assert(s[i as int] == self.queue@[i as int].0);
                    assert(c == event_order(event, s[i as int]));
                    assert(!comparable(event, s[i as int]));
                    assert(s[i as int].time == resident_time);
                    assert(s.contains(s[i as int]));
                    assert(old(self).pending().count(s[i as int]) > 0);
                }
                return Err(
                    FatalDefect::IncomparableEvents { pushed_time, resident_time },
                );
            }
            i += 1;
        }
        self.queue.push(po);
        proof {
            let pre = *old(self);
            let s = pre.pending_seq();
            assert(self.pending_seq() =~= s.push(event));
            assert(self.pending() == pre.pending().insert(event));
            assert forall|f: Event| #[trigger] pre.pending().count(f) > 0 implies comparable(
                event,
                f,
            ) by {
                assert(s.contains(f));
                let j = choose|j: int| 0 <= j < s.len() && s[j] == f;
                assert(comparable(event, s[j]));
            }
            pre.lemma_wf_iff();
            self.lemma_wf_iff();
            let t = self.pending_seq();
            assert forall|i2: int, j2: int|
                0 <= i2 < t.len() && 0 <= j2 < t.len() implies comparable(
                #[trigger] t[i2],
                #[trigger] t[j2],
            ) by {
                if i2 < s.len() && j2 < s.len() {
                    assert(comparable(s[i2], s[j2]));
                } else if i2 == s.len() && j2 == s.len() {
                    lemma_event_le_refl(event);
                } else if i2 == s.len() {
                    assert(s.contains(s[j2]));
                    assert(comparable(event, t[j2]));
                } else {
                    assert(s.contains(s[i2]));
                    assert(comparable(event, t[i2]));
                    lemma_comparable_sym(event, t[i2]);
                }
            }
        }
        Ok(())
    }

    /// The index of a pending event that orders at-or-before every pending
    /// event under the full event order.
    fn index_of_min(&self) -> (mi: usize)
        requires
            self.queue@.len() > 0,
            pairwise_comparable(self.pending_seq()),
        ensures
            mi < self.queue@.len(),
            forall|j: int|
                0 <= j < self.queue@.len() ==> event_le(
                    self.pending_seq()[mi as int],
                    #[trigger] self.pending_seq()[j],
                ),
    {
        let ghost s = self.pending_seq();
        let mut mi: usize = 0;
        let mut i: usize = 1;
        proof {
            lemma_event_le_refl(s[0]);
        }
        while i < self.queue.len()
            invariant
                0 < i <= self.queue@.len(),
                mi < i,
                s == self.pending_seq(),
                pairwise_comparable(s),
                forall|j: int| 0 <= j < i ==> event_le(s[mi as int], #[trigger] s[j]),
            decreases self.queue@.len() - i,
        {
            let c = self.queue[i].try_cmp(&self.queue[mi]);
            match c {
                Some(Ordering::Less) => {
                    proof {
                        assert(event_order(s[i as int], s[mi as int]) == Some(Ordering::Less));
                        assert forall|j: int| 0 <= j < i + 1 implies event_le(
                            s[i as int],
                            #[trigger] s[j],
                        ) by {
                            if j < i {
                                lemma_event_le_trans(s[i as int], s[mi as int], s[j]);
                            } else {
                                lemma_event_le_refl(s[i as int]);
                            }
                        }
                    }
                    mi = i;
                },
                _ => {
                    proof {
                        assert(comparable(s[i as int], s[mi as int]));
                        lemma_event_order_flip(s[mi as int], s[i as int]);
                        assert(event_le(s[mi as int], s[i as int]));
                    }
                },
            }
            i += 1;
        }
        mi
    }

    /// Pop the earliest event from the queue.
    ///
    /// Returns `Ok(None)` on an empty queue. On a non-empty queue, releases
    /// an event no pending event orders before, and advances the release
    /// clock to its time — unless that time lies behind the clock, in which
    /// case the fatal time-regression defect is reported and nothing is
    /// released: time never moves backward.
    pub fn pop(&mut self) -> (r: Result<Option<Event>, FatalDefect>)
        requires
            old(self).wf(),
        ensures
            final(self).wf(),
            match r {
                Ok(e_opt) => match e_opt {
                    None => pop_empty(*old(self), *final(self)),
                    Some(ev) => pop_released(*old(self), *final(self), ev),
                },
                Err(d) => pop_regressed(*old(self), *final(self), d),
            },
    {
        if self.queue.len() == 0 {
            proof {
                assert(self.pending_seq().len() == 0);
            }
            return Ok(None);
        }
        proof {
            old(self).lemma_wf_iff();
        }
        let mi = self.index_of_min();
        let min_time = self.queue[mi].0.time;
        proof {
            let s = old(self).pending_seq();
            assert(s.contains(s[mi as int]));
            assert(old(self).pending().count(s[mi as int]) > 0);
            assert forall|f: Event| #[trigger] old(self).pending().count(f) > 0 implies event_le(
                s[mi as int],
                f,
            ) && s[mi as int].time.nanos <= f.time.nanos by {
                assert(s.contains(f));
                let j = choose|j: int| 0 <= j < s.len() && s[j] == f;
                assert(event_le(s[mi as int], s[j]));
                lemma_event_le_time(s[mi as int], s[j]);
            }
        }
        if min_time.nanos < self.last_popped_event_time.nanos {
            return Err(
                FatalDefect::TimeRegression {
                    event_time: min_time,
                    last_released: self.last_popped_event_time,
                },
            );
        }
        let po = self.queue.remove(mi);
        let event = po.into_inner();
        self.last_popped_event_time = event.time();
        proof {
            let pre = *old(self);
            let s = pre.pending_seq();
            assert(event == s[mi as int]);
            assert(pre.pending().count(event) > 0);
            assert(self.pending_seq() =~= s.remove(mi as int));
            assert(self.pending() == pre.pending().remove(event));
            assert forall|a: Event, b: Event|
                #[trigger] self.pending().count(a) > 0 && #[trigger] self.pending().count(b) > 0
                    implies comparable(a, b) by {
                assert(pre.pending().count(a) >= self.pending().count(a));
                assert(pre.pending().count(b) >= self.pending().count(b));
            }
        }
        Ok(Some(event))
    }

    /// The time of the earliest event in the queue — the time the next pop
    /// would release — or `None` on an empty queue. Side-effect-free and
    /// callable arbitrarily often between pops.
    pub fn next_event_time(&self) -> (r: Option<EmulatedTime>)
        ensures
            match r {
                None => self.pending().len() == 0,
                Some(t) => time_is_min(self.pending(), t),
            },
    {
        if self.queue.len() == 0 {
            proof {
                assert(self.pending_seq().len() == 0);
            }
            return None;
        }
        let ghost s = self.pending_seq();
        let mut mi: usize = 0;
        let mut i: usize = 1;
        while i < self.queue.len()
            invariant
                0 < i <= self.queue@.len(),
                mi < i,
                s == self.pending_seq(),
                forall|j: int|
                    0 <= j < i ==> s[mi as int].time.nanos <= (#[trigger] s[j]).time.nanos,
            decreases self.queue@.len() - i,
        {
            if self.queue[i].0.time.nanos < self.queue[mi].0.time.nanos {
                mi = i;
            }
            i += 1;
        }
        proof {
            assert(s.contains(s[mi as int]));
            assert(self.pending().count(s[mi as int]) > 0);
            assert forall|f: Event| #[trigger] self.pending().count(f) > 0 implies s[mi as int].time.nanos
                <= f.time.nanos by {
                assert(s.contains(f));
                let j = choose|j: int| 0 <= j < s.len() && s[j] == f;
                assert(s[mi as int].time.nanos <= s[j].time.nanos);
            }
        }
        Some(self.queue[mi].0.time)
    }
}

} // verus!
