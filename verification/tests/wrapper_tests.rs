use event_scheduler::emulated_time::EmulatedTime;
use event_scheduler::event::{Event, TieBreaker};
use event_scheduler::event_queue::FatalDefect;
use event_scheduler::thread_safe::ThreadSafeEventQueue;

fn ev(nanos: u64, payload: u64) -> Event {
    Event::new(
        EmulatedTime::from_abs_simtime(nanos),
        TieBreaker::Unkeyed,
        payload,
    )
}

#[test]
fn shared_queue_pops_sorted() {
    let q = ThreadSafeEventQueue::new();
    assert!(q.push(ev(5, 50)).is_ok());
    assert!(q.push(ev(1, 10)).is_ok());
    assert!(q.push(ev(3, 30)).is_ok());

    assert_eq!(q.pop().unwrap().unwrap().time().nanos, 1);
    assert_eq!(q.pop().unwrap().unwrap().time().nanos, 3);
    assert_eq!(q.pop().unwrap().unwrap().time().nanos, 5);
    assert!(matches!(q.pop(), Ok(None)));
}

#[test]
fn shared_queue_needs_no_external_locking() {
    // All operations go through a shared reference: the wrapper provides the
    // mutual exclusion itself.
    let q = ThreadSafeEventQueue::new();
    let view = &q;
    assert_eq!(view.next_event_time(), None);
    assert!(view.push(ev(2, 20)).is_ok());
    assert_eq!(
        view.next_event_time(),
        Some(EmulatedTime::from_abs_simtime(2))
    );
    let released = view.pop().unwrap().unwrap();
    assert_eq!(released.payload(), 20);
    assert_eq!(view.next_event_time(), None);
}

#[test]
fn shared_queue_reports_regression() {
    let q = ThreadSafeEventQueue::new();
    assert!(q.push(ev(10, 0)).is_ok());
    assert_eq!(q.pop().unwrap().unwrap().time().nanos, 10);
    assert!(q.push(ev(7, 0)).is_ok());
    assert_eq!(
        q.pop().unwrap_err(),
        FatalDefect::TimeRegression {
            event_time: EmulatedTime::from_abs_simtime(7),
            last_released: EmulatedTime::from_abs_simtime(10),
        }
    );
}

#[test]
fn shared_queue_reports_incomparable() {
    let q = ThreadSafeEventQueue::new();
    let keyed = Event::new(EmulatedTime::from_abs_simtime(2), TieBreaker::Keyed(1), 0);
    assert!(q.push(keyed).is_ok());
    assert_eq!(
        q.push(ev(2, 0)).unwrap_err(),
        FatalDefect::IncomparableEvents {
            pushed_time: EmulatedTime::from_abs_simtime(2),
            resident_time: EmulatedTime::from_abs_simtime(2),
        }
    );
}

#[test]
fn shared_queue_conserves_events() {
    let q = ThreadSafeEventQueue::new();
    for i in 0..100u64 {
        assert!(q.push(ev(1000 - i, i)).is_ok());
    }
    let mut count = 0u64;
    let mut last: Option<u64> = None;
    while let Ok(Some(e)) = q.pop() {
        if let Some(prev) = last {
            assert!(prev <= e.time().nanos);
        }
        last = Some(e.time().nanos);
        count += 1;
    }
    assert_eq!(count, 100);
}
