use event_scheduler::emulated_time::{to_c_simtime, EmulatedTime, SIMTIME_INVALID};
use event_scheduler::event::{Event, TieBreaker};
use event_scheduler::event_queue::{EventQueue, FatalDefect, PanickingOrd};

fn ev(nanos: u64, payload: u64) -> Event {
    Event::new(
        EmulatedTime::from_abs_simtime(nanos),
        TieBreaker::Unkeyed,
        payload,
    )
}

fn keyed_ev(nanos: u64, key: u64, payload: u64) -> Event {
    Event::new(
        EmulatedTime::from_abs_simtime(nanos),
        TieBreaker::Keyed(key),
        payload,
    )
}

#[test]
fn pops_sorted_by_time() {
    let mut q = EventQueue::new();
    assert!(q.push(ev(5, 50)).is_ok());
    assert!(q.push(ev(1, 10)).is_ok());
    assert!(q.push(ev(3, 30)).is_ok());

    let first = q.pop().unwrap().unwrap();
    assert_eq!(first.time().nanos, 1);
    assert_eq!(first.payload(), 10);
    let second = q.pop().unwrap().unwrap();
    assert_eq!(second.time().nanos, 3);
    assert_eq!(second.payload(), 30);
    let third = q.pop().unwrap().unwrap();
    assert_eq!(third.time().nanos, 5);
    assert_eq!(third.payload(), 50);
    assert!(matches!(q.pop(), Ok(None)));
}

#[test]
fn time_regression_is_fatal() {
    let mut q = EventQueue::new();
    assert!(q.push(ev(10, 0)).is_ok());
    let released = q.pop().unwrap().unwrap();
    assert_eq!(released.time().nanos, 10);

    assert!(q.push(ev(7, 0)).is_ok());
    let defect = q.pop().unwrap_err();
    assert_eq!(
        defect,
        FatalDefect::TimeRegression {
            event_time: EmulatedTime::from_abs_simtime(7),
            last_released: EmulatedTime::from_abs_simtime(10),
        }
    );
}

#[test]
fn regression_leaves_queue_untouched() {
    let mut q = EventQueue::new();
    assert!(q.push(ev(10, 0)).is_ok());
    q.pop().unwrap().unwrap();
    assert!(q.push(ev(7, 77)).is_ok());

    // The defect is reported, not resolved: the offending event stays
    // pending and every further pop reports the same regression.
    assert!(q.pop().is_err());
    assert_eq!(q.next_event_time(), Some(EmulatedTime::from_abs_simtime(7)));
    assert!(q.pop().is_err());
    assert_eq!(q.next_event_time(), Some(EmulatedTime::from_abs_simtime(7)));
}

#[test]
fn peek_tracks_next_pop() {
    let mut q = EventQueue::new();
    assert_eq!(q.next_event_time(), None);

    assert!(q.push(ev(2, 20)).is_ok());
    assert_eq!(q.next_event_time(), Some(EmulatedTime::from_abs_simtime(2)));
    // Peeking is side-effect-free, repeatable between pops.
    assert_eq!(q.next_event_time(), Some(EmulatedTime::from_abs_simtime(2)));

    let released = q.pop().unwrap().unwrap();
    assert_eq!(released.time().nanos, 2);
    assert_eq!(released.payload(), 20);
    assert_eq!(q.next_event_time(), None);
}

#[test]
fn empty_queue_reports_empty_repeatably() {
    let mut q = EventQueue::new();
    for _ in 0..5 {
        assert!(matches!(q.pop(), Ok(None)));
        assert_eq!(q.next_event_time(), None);
    }
}

#[test]
fn incomparable_push_is_fatal() {
    let mut q = EventQueue::new();
    assert!(q.push(keyed_ev(2, 1, 0)).is_ok());
    // Same time, but only one side carries a secondary key: no relative
    // order exists, and the push must report it rather than pick one.
    let defect = q.push(ev(2, 0)).unwrap_err();
    assert_eq!(
        defect,
        FatalDefect::IncomparableEvents {
            pushed_time: EmulatedTime::from_abs_simtime(2),
            resident_time: EmulatedTime::from_abs_simtime(2),
        }
    );
    // The rejected event was not admitted.
    let released = q.pop().unwrap().unwrap();
    assert_eq!(released.time().nanos, 2);
    assert!(matches!(q.pop(), Ok(None)));
}

#[test]
fn cardinality_is_conserved() {
    let mut q = EventQueue::new();
    let n: u64 = 8;
    let m: u64 = 3;
    for i in 0..n {
        assert!(q.push(ev(i, i)).is_ok());
    }
    for _ in 0..m {
        assert!(matches!(q.pop(), Ok(Some(_))));
    }
    // N pushes and M pops leave exactly N - M events observably pending.
    let mut remaining: u64 = 0;
    while let Ok(Some(_)) = q.pop() {
        remaining += 1;
    }
    assert_eq!(remaining, n - m);
    assert_eq!(q.next_event_time(), None);
}

#[test]
fn peek_nonempty_iff_pushes_exceed_pops() {
    let mut q = EventQueue::new();
    for i in 0..3u64 {
        assert!(q.push(ev(i, i)).is_ok());
    }
    assert!(q.next_event_time().is_some());
    q.pop().unwrap();
    q.pop().unwrap();
    assert!(q.next_event_time().is_some());
    q.pop().unwrap();
    assert!(q.next_event_time().is_none());
}

#[test]
fn equal_times_follow_secondary_keys() {
    let mut q = EventQueue::new();
    assert!(q.push(keyed_ev(4, 9, 90)).is_ok());
    assert!(q.push(keyed_ev(4, 2, 20)).is_ok());
    assert!(q.push(keyed_ev(4, 5, 50)).is_ok());

    assert_eq!(q.pop().unwrap().unwrap().payload(), 20);
    assert_eq!(q.pop().unwrap().unwrap().payload(), 50);
    assert_eq!(q.pop().unwrap().unwrap().payload(), 90);
    assert!(matches!(q.pop(), Ok(None)));
}

#[test]
fn equal_keys_release_both_in_any_order() {
    let mut q = EventQueue::new();
    assert!(q.push(keyed_ev(6, 1, 100)).is_ok());
    assert!(q.push(keyed_ev(6, 1, 200)).is_ok());

    let a = q.pop().unwrap().unwrap();
    let b = q.pop().unwrap().unwrap();
    assert_eq!(a.time().nanos, 6);
    assert_eq!(b.time().nanos, 6);
    // Relative order of equal-key events is unspecified, but both must come
    // out exactly once.
    let mut payloads = [a.payload(), b.payload()];
    payloads.sort();
    assert_eq!(payloads, [100, 200]);
    assert!(matches!(q.pop(), Ok(None)));
}

#[test]
fn equal_times_are_released_at_equal_clock() {
    let mut q = EventQueue::new();
    assert!(q.push(ev(3, 1)).is_ok());
    assert!(q.push(ev(3, 2)).is_ok());
    // Releasing at a time equal to the clock is legal: only strictly earlier
    // times regress.
    assert!(matches!(q.pop(), Ok(Some(_))));
    assert!(matches!(q.pop(), Ok(Some(_))));
    assert!(matches!(q.pop(), Ok(None)));
}

#[test]
fn interleaved_batches_drain_sorted() {
    // Two producers' batches of 1000 distinct times each, interleaved, then
    // drained: exactly 2000 events, strictly increasing times.
    let mut q = EventQueue::new();
    for i in 0..1000u64 {
        // One producer pushes even times counting down, the other odd times
        // counting up.
        assert!(q.push(ev(2 * (999 - i), i)).is_ok());
        assert!(q.push(ev(2 * i + 1, i)).is_ok());
    }
    let mut count = 0u64;
    let mut last: Option<u64> = None;
    while let Ok(Some(e)) = q.pop() {
        if let Some(prev) = last {
            assert!(prev < e.time().nanos);
        }
        last = Some(e.time().nanos);
        count += 1;
    }
    assert_eq!(count, 2000);
    assert!(matches!(q.pop(), Ok(None)));
}

#[test]
fn events_compare_by_key_not_payload() {
    // The comparison key is the timestamp plus the secondary key; the
    // payload takes no part in the ordering contract.
    let a = keyed_ev(3, 7, 1);
    let b = keyed_ev(3, 7, 2);
    assert_eq!(a, b);
    assert_ne!(a.payload(), b.payload());
    let c = keyed_ev(3, 8, 1);
    assert!(a != c);
    assert_eq!(a.partial_cmp(&c), Some(std::cmp::Ordering::Less));
    assert_eq!(c.partial_cmp(&a), Some(std::cmp::Ordering::Greater));
    // A tagged and an untagged event at one time have no relative order.
    assert_eq!(a.partial_cmp(&ev(3, 0)), None);
}

#[test]
fn panicking_ord_hands_value_back() {
    let wrapped = PanickingOrd::from(ev(12, 34));
    let inner = wrapped.into_inner();
    assert_eq!(inner.time().nanos, 12);
    assert_eq!(inner.payload(), 34);
}

#[test]
fn panicking_ord_orders_comparable_pairs() {
    let a = PanickingOrd::from(ev(1, 0));
    let b = PanickingOrd::from(ev(2, 0));
    assert_eq!(a.try_cmp(&b), Some(std::cmp::Ordering::Less));
    assert_eq!(b.try_cmp(&a), Some(std::cmp::Ordering::Greater));
    assert_eq!(a.try_cmp(&a), Some(std::cmp::Ordering::Equal));
}

#[test]
fn panicking_ord_reports_incomparable_pairs() {
    let a = PanickingOrd::from(keyed_ev(2, 1, 0));
    let b = PanickingOrd::from(ev(2, 0));
    assert_eq!(a.try_cmp(&b), None);
    assert_eq!(b.try_cmp(&a), None);
}

#[test]
fn releases_at_simulation_start_and_near_the_horizon() {
    let mut q = EventQueue::new();
    // An event at the clock's origin is released at a clock it equals, and
    // the largest representable valid time is still orderable after it.
    assert!(q.push(ev(0, 1)).is_ok());
    assert!(q.push(ev(u64::MAX - 1, 2)).is_ok());
    assert_eq!(q.pop().unwrap().unwrap().time().nanos, 0);
    assert_eq!(q.pop().unwrap().unwrap().time().nanos, u64::MAX - 1);
    assert!(matches!(q.pop(), Ok(None)));
}

#[test]
fn boundary_time_conversion() {
    assert_eq!(to_c_simtime(None), SIMTIME_INVALID);
    assert_eq!(to_c_simtime(Some(EmulatedTime::from_abs_simtime(5))), 5);
    assert_eq!(to_c_simtime(Some(EmulatedTime::simulation_start())), 0);
    assert_eq!(EmulatedTime::from_abs_simtime(42).to_abs_simtime(), 42);
}
