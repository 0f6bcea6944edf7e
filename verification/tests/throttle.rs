use std::time::Instant;

use hyperpod::vmm::common::device::throttle::{TokenBucket, SECOND, STARVED_WAIT};

const MILLISECOND: u64 = 1_000_000;

#[test]
fn initial_consumption_within_capacity_succeeds() {
    let mut tb = TokenBucket::new(100, 10);
    assert!(tb.try_consume(50).is_ok());
    assert!(tb.try_consume(50).is_ok());
}

#[test]
fn empty_bucket_reports_wait_proportional_to_rate() {
    let mut tb = TokenBucket::new(10, 100); // 100 tok/s = 10ms / token
    assert!(tb.try_consume(10).is_ok()); // drain
    let wait = tb.try_consume(1).unwrap_err();
    // Expect ~10ms with some slack for refill that already happened.
    assert!(wait <= 11 * MILLISECOND, "wait = {wait:?}");
}

#[test]
fn refill_grants_more_tokens_over_time() {
    let start = Instant::now();
    let mut tb = TokenBucket::new(100, 1_000_000);
    // Drain
    assert!(tb.try_consume(100).is_ok());
    // Advance virtual time
    let later = start.elapsed().as_nanos() as u64 + 10 * MILLISECOND;
    // 10ms @ 1M tok/s = 10_000 tokens earned, clamped to capacity 100.
    assert!(tb.try_consume_at(50, later).is_ok());
}

#[test]
fn zero_rate_returns_long_wait_when_drained() {
    let mut tb = TokenBucket::new(5, 0);
    assert!(tb.try_consume(5).is_ok());
    let wait = tb.try_consume(1).unwrap_err();
    assert!(wait >= 60 * SECOND, "wait = {wait:?}");
}

#[test]
fn set_rate_updates_throttle_live() {
    // Request more than capacity so both calls must report a wait
    // (otherwise a fast refill could satisfy a 1-token request between
    // the two reads).
    let mut tb = TokenBucket::new(10, 1);
    let slow = tb.try_consume(100).unwrap_err();
    tb.set_rate(1_000_000);
    let fast = tb.try_consume(100).unwrap_err();
    assert!(fast < slow, "raising rate should shorten the wait (slow={slow:?}, fast={fast:?})");
}

#[test]
fn set_capacity_clamps_existing_tokens() {
    let mut tb = TokenBucket::new(100, 10);
    tb.set_capacity(10);
    // After clamping, only 10 tokens are available.
    assert!(tb.try_consume(10).is_ok());
    assert!(tb.try_consume(1).is_err());
}

#[test]
fn waits_are_exact() {
    let mut tb = TokenBucket::new(10, 4);
    assert_eq!(tb.try_consume_at(10, 0), Ok(()));
    assert_eq!(tb.try_consume_at(1, 0), Err(250 * MILLISECOND));
    assert_eq!(tb.try_consume_at(3, 0), Err(750 * MILLISECOND));
    assert_eq!(tb.try_consume_at(1, 249_999_999), Err(1));
    assert_eq!(tb.try_consume_at(1, 250_000_000), Ok(()));
    assert_eq!((tb.capacity(), tb.rate()), (10, 4));
}

#[test]
fn huge_waits_are_capped() {
    let mut tb = TokenBucket::new(0, 1);
    assert_eq!(tb.try_consume_at(u64::MAX, 0), Err(u64::MAX));
}

#[test]
fn starved_bucket_waits_an_hour() {
    let mut tb = TokenBucket::new(5, 0);
    assert_eq!(tb.try_consume_at(5, 0), Ok(()));
    assert_eq!(tb.try_consume_at(1, 1000 * SECOND), Err(STARVED_WAIT));
}

#[test]
fn the_wait_is_the_shortest_one() {
    let mut tb = TokenBucket::new(1, 3);
    assert_eq!(tb.try_consume_at(1, 0), Ok(()));
    assert_eq!(tb.try_consume_at(1, 0), Err(333_333_334));
    assert_eq!(tb.try_consume_at(1, 333_333_333), Err(1));
    assert_eq!(tb.try_consume_at(1, 333_333_334), Ok(()));
}

#[test]
fn time_already_run_counts_towards_the_wait() {
    let mut tb = TokenBucket::new(1, 1);
    assert_eq!(tb.try_consume_at(1, 0), Ok(()));
    assert_eq!(tb.try_consume_at(1, 900 * MILLISECOND), Err(100 * MILLISECOND));
    assert_eq!(tb.try_consume_at(1, SECOND), Ok(()));
}

#[test]
fn what_is_earned_is_not_cut_off() {
    let mut tb = TokenBucket::new(u64::MAX, 1 << 63);
    assert_eq!(tb.try_consume_at(u64::MAX, 0), Ok(()));
    assert_eq!(tb.try_consume_at(u64::MAX, 2 * SECOND), Ok(()));
}

#[test]
fn time_that_goes_back_earns_nothing() {
    let mut tb = TokenBucket::new(10, 10);
    assert_eq!(tb.try_consume_at(10, 5 * SECOND), Ok(()));
    assert_eq!(tb.try_consume_at(1, 6 * SECOND), Ok(()));
    assert_eq!(tb.try_consume_at(10, 4 * SECOND), Err(2 * SECOND + SECOND / 10));
}

#[test]
fn refill_stops_at_capacity() {
    let mut tb = TokenBucket::new(10, 10);
    assert_eq!(tb.try_consume_at(10, 0), Ok(()));
    assert_eq!(tb.try_consume_at(11, 100 * SECOND), Err(SECOND / 10));
    assert_eq!(tb.try_consume_at(10, 100 * SECOND), Ok(()));
}

#[test]
fn the_clock_moves() {
    let mut tb = TokenBucket::new(1, 1_000_000_000);
    assert!(tb.try_consume(1).is_ok());
    // At a token per nanosecond the bucket fills again as soon as the clock has moved.
    let mut tries = 0;
    while tb.try_consume(1).is_err() {
        tries += 1;
        assert!(tries < 10_000_000);
    }
}

#[test]
fn oversized_requests_wait_the_same_at_every_moment() {
    let mut tb = TokenBucket::new(10, 1);
    for now in [0, SECOND / 2, SECOND, 3 * SECOND / 2, 1000 * SECOND] {
        assert_eq!(tb.try_consume_at(100, now), Err(90 * SECOND));
    }
    assert_eq!(tb.try_consume(100), Err(90 * SECOND));
    tb.set_rate(1_000_000);
    assert_eq!(tb.try_consume(100), Err(90_000));
}

#[test]
fn raising_the_rate_never_lengthens_a_wait() {
    for (n, at) in [(100, 999_500), (8, 999_500), (10, 2_000_000), (9, 0)] {
        let told = |rate: u64| {
            let mut tb = TokenBucket::new(10, rate);
            assert_eq!(tb.try_consume_at(5, 0), Ok(()));
            tb.try_consume_at(n, at).map_or_else(|wait| wait, |()| 0)
        };
        assert!(told(1001) <= told(1000), "{n} at {at}");
        assert!(told(1_000_000) <= told(1001), "{n} at {at}");
    }
    let mut tb = TokenBucket::new(10, 1000);
    assert_eq!(tb.try_consume_at(100, 999_500), Err(90_000_000));
    tb.set_rate(1001);
    assert_eq!(tb.try_consume_at(100, 999_500), Err(89_910_089));
}
