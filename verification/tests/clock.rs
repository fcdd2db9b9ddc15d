use firmware_runtime::clock::{Clock, DurationError, ExtendedSleep, MAX_WAIT, NANOS_PER_SEC};

/// Waits on a counter of ticks until the sleep is handed out whole; returns
/// the ticks counted and the number of single waits.
fn run(mut sleep: ExtendedSleep) -> (u128, u64) {
    let mut ticks: u128 = 0;
    let mut waits: u64 = 0;
    loop {
        match sleep.next_wait() {
            Some(w) => {
                assert!(w >= 1);
                ticks += u128::from(w);
                waits += 1;
            }
            None => return (ticks, waits),
        }
    }
}

#[test]
fn clocks_tick_at_their_rates() {
    assert_eq!(Clock::sec(), Clock::Seconds);
    assert_eq!(Clock::msec(), Clock::Milliseconds);
    assert_eq!(Clock::sec().hz(), 1);
    assert_eq!(Clock::msec().hz(), 1000);
    assert_eq!(MAX_WAIT, u32::MAX);
    assert_eq!(NANOS_PER_SEC, 1_000_000_000);
}

#[test]
fn ticks_for_whole_seconds() {
    assert_eq!(Clock::sec().ticks_for(5, 0), Ok(5));
    assert_eq!(Clock::msec().ticks_for(5, 0), Ok(5000));
    assert_eq!(Clock::msec().ticks_for(2, 0), Ok(2000));
    assert_eq!(Clock::sec().ticks_for(0, 0), Ok(0));
    assert_eq!(Clock::msec().ticks_for(0, 0), Ok(0));
}

#[test]
fn ticks_for_rounds_up() {
    assert_eq!(Clock::msec().ticks_for(0, 500_000_000), Ok(500));
    assert_eq!(Clock::msec().ticks_for(0, 100_000_000), Ok(100));
    assert_eq!(Clock::msec().ticks_for(0, 1), Ok(1));
    assert_eq!(Clock::msec().ticks_for(0, 1_000_000), Ok(1));
    assert_eq!(Clock::msec().ticks_for(0, 1_000_001), Ok(2));
    assert_eq!(Clock::msec().ticks_for(0, 999_999_999), Ok(1000));
    assert_eq!(Clock::sec().ticks_for(0, 1), Ok(1));
    assert_eq!(Clock::sec().ticks_for(0, 500_000_000), Ok(1));
    assert_eq!(Clock::sec().ticks_for(1, 1), Ok(2));
    assert_eq!(Clock::sec().ticks_for(1, 999_999_999), Ok(2));
}

#[test]
fn ticks_for_refuses_nanos_of_a_full_second() {
    assert_eq!(Clock::sec().ticks_for(0, 1_000_000_000), Err(DurationError::NanosOutOfRange));
    assert_eq!(Clock::msec().ticks_for(7, u32::MAX), Err(DurationError::NanosOutOfRange));
}

#[test]
fn ticks_for_refuses_what_does_not_fit() {
    assert_eq!(Clock::sec().ticks_for(u64::MAX, 0), Ok(u64::MAX));
    assert_eq!(Clock::sec().ticks_for(u64::MAX, 1), Err(DurationError::TooLong));
    assert_eq!(Clock::msec().ticks_for(u64::MAX, 0), Err(DurationError::TooLong));
    assert_eq!(Clock::msec().ticks_for(u64::MAX / 1000, 0), Ok(u64::MAX / 1000 * 1000));
    assert_eq!(Clock::msec().ticks_for(u64::MAX / 1000, 615_000_000), Ok(u64::MAX));
    assert_eq!(Clock::msec().ticks_for(u64::MAX / 1000, 615_000_001), Err(DurationError::TooLong));
}

#[test]
fn short_sleep_is_one_wait() {
    let mut sleep = Clock::msec().sleep_extended(0, 500_000_000).unwrap();
    assert_eq!(sleep.on_clock(), Clock::Milliseconds);
    assert_eq!(sleep.ticks_left(), 500);
    assert!(!sleep.is_done());
    assert_eq!(sleep.next_wait(), Some(500));
    assert!(sleep.is_done());
    assert_eq!(sleep.ticks_left(), 0);
    assert_eq!(sleep.next_wait(), None);
    assert_eq!(sleep.next_wait(), None);
}

#[test]
fn sleep_of_nothing_has_no_wait() {
    let mut sleep = Clock::sec().sleep_extended(0, 0).unwrap();
    assert!(sleep.is_done());
    assert_eq!(sleep.next_wait(), None);
}

#[test]
fn sleep_extended_hands_on_the_error() {
    assert_eq!(
        Clock::msec().sleep_extended(u64::MAX, 0),
        Err(DurationError::TooLong)
    );
    assert_eq!(
        Clock::sec().sleep_extended(1, 2_000_000_000),
        Err(DurationError::NanosOutOfRange)
    );
}

#[test]
fn sleep_at_the_longest_single_wait() {
    let mut sleep = Clock::sec().sleep_ticks(u64::from(u32::MAX));
    assert_eq!(sleep.next_wait(), Some(u32::MAX));
    assert_eq!(sleep.next_wait(), None);
}

#[test]
fn sleep_beyond_the_longest_single_wait_is_cut() {
    let mut sleep = Clock::sec().sleep_ticks(u64::from(u32::MAX) + 1);
    assert_eq!(sleep.next_wait(), Some(u32::MAX));
    assert_eq!(sleep.ticks_left(), 1);
    assert_eq!(sleep.next_wait(), Some(1));
    assert_eq!(sleep.next_wait(), None);
}

#[test]
fn sleep_extended_covers_full_duration() {
    // 5 000 000 seconds on the fine clock: more ticks than one wait takes.
    let sleep = Clock::msec().sleep_extended(5_000_000, 0).unwrap();
    assert_eq!(sleep.ticks_left(), 5_000_000_000);
    assert!(sleep.ticks_left() > u64::from(MAX_WAIT));
    let (ticks, waits) = run(sleep);
    assert_eq!(ticks, 5_000_000_000);
    assert_eq!(waits, 2);
}

#[test]
fn sleep_of_many_full_waits_adds_up() {
    let requested: u64 = 10 * u64::from(u32::MAX) + 12_345;
    let (ticks, waits) = run(Clock::sec().sleep_ticks(requested));
    assert_eq!(ticks, u128::from(requested));
    assert_eq!(waits, 11);
    let exact: u64 = 3 * u64::from(u32::MAX);
    let (ticks, waits) = run(Clock::sec().sleep_ticks(exact));
    assert_eq!(ticks, u128::from(exact));
    assert_eq!(waits, 3);
}
