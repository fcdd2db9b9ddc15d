use firmware_runtime::signal::{EdgeSignal, MAX_PENDING};

#[test]
fn new_signal_has_nothing_pending() {
    let mut signal = EdgeSignal::new();
    assert!(!signal.is_pending());
    assert_eq!(signal.take(), 0);
}

#[test]
fn one_edge_is_seen_once() {
    let mut signal = EdgeSignal::new();
    signal.raise();
    assert!(signal.is_pending());
    assert_eq!(signal.take(), 1);
    assert!(!signal.is_pending());
    assert_eq!(signal.take(), 0);
}

#[test]
fn back_to_back_edges_are_counted_not_lost() {
    let mut signal = EdgeSignal::new();
    for _ in 0..5 {
        signal.raise();
    }
    assert!(signal.is_pending());
    assert_eq!(signal.take(), 5);
    assert_eq!(signal.take(), 0);
}

#[test]
fn edge_after_take_is_pending_again() {
    let mut signal = EdgeSignal::new();
    signal.raise();
    assert_eq!(signal.take(), 1);
    signal.raise();
    signal.raise();
    assert!(signal.is_pending());
    assert_eq!(signal.take(), 2);
}

#[test]
fn many_edges_are_counted() {
    let mut signal = EdgeSignal::new();
    for _ in 0..70_000 {
        signal.raise();
    }
    assert_eq!(signal.take(), 70_000);
}

#[test]
fn count_saturates_at_the_maximum() {
    assert_eq!(MAX_PENDING, u32::MAX);
    let mut signal = EdgeSignal::with_pending(u32::MAX - 2);
    signal.raise();
    signal.raise();
    assert_eq!(EdgeSignal::with_pending(u32::MAX), signal);
    signal.raise();
    signal.raise();
    assert!(signal.is_pending());
    assert_eq!(signal.take(), u32::MAX);
    assert_eq!(signal.take(), 0);
}

#[test]
fn with_pending_starts_at_the_count() {
    let mut signal = EdgeSignal::with_pending(3);
    signal.raise();
    assert_eq!(signal.take(), 4);
    assert!(!EdgeSignal::with_pending(0).is_pending());
}

#[test]
fn signals_compare_by_count() {
    let mut a = EdgeSignal::new();
    let b = EdgeSignal::new();
    assert_eq!(a, b);
    a.raise();
    assert_ne!(a, b);
}
