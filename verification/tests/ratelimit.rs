use axon::clock::{Clock, SystemClock, TestClock};
use axon::limiter::{Limiter, MultiReservation};
use axon::models::RateLimitConfig;
use axon::rate_store::RateLimitError;
use axon::window::{FixedWindowCounter, WindowCheck};

fn limits(rpm: Option<u64>, tpm: Option<u64>, concurrency: Option<u32>) -> RateLimitConfig {
    RateLimitConfig { rps: None, rpm, rph: None, rpd: None, tpm, tpd: None, concurrency }
}

fn limits_full(rps: Option<u64>, rpm: Option<u64>, rph: Option<u64>, rpd: Option<u64>) -> RateLimitConfig {
    RateLimitConfig { rps, rpm, rph, rpd, tpm: None, tpd: None, concurrency: None }
}

#[test]
fn system_clock_returns_positive_now() {
    assert!(SystemClock.unix_secs() > 0);
}

#[test]
fn test_clock_advances_and_sets() {
    let c = TestClock::new(100);
    assert_eq!(c.unix_secs(), 100);
    c.advance(30);
    assert_eq!(c.unix_secs(), 130);
    c.set(500);
    assert_eq!(c.unix_secs(), 500);
}

#[test]
fn first_increments_fit_then_subsequent_block() {
    let mut w = FixedWindowCounter::new(60);
    assert_eq!(w.check_and_increment(100, 1, 3), WindowCheck::Passed);
    assert_eq!(w.check_and_increment(100, 1, 3), WindowCheck::Passed);
    assert_eq!(w.check_and_increment(100, 1, 3), WindowCheck::Passed);
    match w.check_and_increment(100, 1, 3) {
        WindowCheck::Full { retry_after_secs } => {
            assert!(retry_after_secs > 0);
            assert!(retry_after_secs <= 60);
        }
        _ => panic!("expected Full"),
    }
}

#[test]
fn counter_rolls_over_at_window_boundary() {
    let mut w = FixedWindowCounter::new(60);
    for _ in 0..3 {
        w.check_and_increment(100, 1, 3);
    }
    assert_eq!(w.check_and_increment(161, 1, 3), WindowCheck::Passed);
    assert_eq!(w.current(161), 1);
}

#[test]
fn retry_after_reflects_time_remaining_in_window() {
    let mut w = FixedWindowCounter::new(60);
    for _ in 0..3 {
        w.check_and_increment(100, 1, 3);
    }
    match w.check_and_increment(110, 1, 3) {
        WindowCheck::Full { retry_after_secs } => {
            assert_eq!(retry_after_secs, 10);
        }
        _ => panic!("expected Full"),
    }
}

#[test]
fn add_records_post_deduct_usage_and_is_checkable() {
    let mut w = FixedWindowCounter::new(60);
    w.add(100, 1_000);
    w.add(101, 500);
    assert_eq!(w.current(101), 1_500);

    assert!(w.is_exceeded(101, 2_000).is_none());
    assert!(w.is_exceeded(101, 1_000).is_some());
}

#[test]
fn check_with_zero_delta_is_a_read_only_peek_that_succeeds() {
    let mut w = FixedWindowCounter::new(60);
    assert_eq!(w.check_and_increment(100, 0, 5), WindowCheck::Passed);
    assert_eq!(w.current(100), 0);
}

#[test]
fn decrement_reduces_current_window_count_only() {
    let mut w = FixedWindowCounter::new(60);
    w.check_and_increment(100, 1, 100);
    w.check_and_increment(100, 1, 100);
    assert_eq!(w.current(100), 2);

    w.decrement(100, 1);
    assert_eq!(w.current(100), 1);

    w.decrement(100, 100);
    assert_eq!(w.current(100), 0);
}

#[test]
fn decrement_is_noop_after_window_rollover() {
    let mut w = FixedWindowCounter::new(60);
    for _ in 0..5 {
        w.check_and_increment(100, 1, 100);
    }
    w.decrement(200, 1);
    assert_eq!(w.current(200), 0);
}

#[test]
fn retry_after_is_at_least_one_second() {
    let mut w = FixedWindowCounter::new(60);
    w.add(100, 1_000);
    let hint = w.is_exceeded(119, 100).unwrap();
    assert!(hint >= 1);
}

#[test]
fn window_increment_then_decrement_restores_count() {
    let mut w = FixedWindowCounter::new(60);
    w.add(100, 7);
    assert_eq!(w.check_and_increment(100, 3, 100), WindowCheck::Passed);
    assert_eq!(w.current(100), 10);
    w.decrement(100, 3);
    assert_eq!(w.current(100), 7);
    assert_eq!(w.window_secs(), 60);
}

#[test]
fn rpm_caps_request_count_in_window() {
    let clock = TestClock::new(100);
    let mut limiter = Limiter::local_with_clock(clock.clone());
    let l = limits(Some(2), None, None);

    let _r1 = limiter.pre_commit("k1", &l).unwrap();
    let _r2 = limiter.pre_commit("k1", &l).unwrap();
    let err = limiter.pre_commit("k1", &l).unwrap_err();
    match err {
        RateLimitError::Requests { retry_after_secs, .. } => {
            assert!(retry_after_secs > 0);
        }
        other => panic!("expected Requests, got {other:?}"),
    }
}

#[test]
fn rpm_resets_after_window_rollover() {
    let clock = TestClock::new(100);
    let mut limiter = Limiter::local_with_clock(clock.clone());
    let l = limits(Some(1), None, None);

    let _r1 = limiter.pre_commit("k1", &l).unwrap();
    assert!(limiter.pre_commit("k1", &l).is_err());

    clock.advance(61);
    let _r2 = limiter.pre_commit("k1", &l).unwrap();
}

#[test]
fn concurrency_limit_blocks_new_reservations() {
    let clock = TestClock::new(0);
    let mut limiter = Limiter::local_with_clock(clock.clone());
    let l = limits(None, None, Some(2));

    let r1 = limiter.pre_commit("k1", &l).unwrap();
    let r2 = limiter.pre_commit("k1", &l).unwrap();
    assert!(matches!(limiter.pre_commit("k1", &l).unwrap_err(), RateLimitError::Concurrency));

    r1.release(&mut limiter);
    let _r3 = limiter.pre_commit("k1", &l).unwrap();
    r2.release(&mut limiter);
}

#[test]
fn token_commit_updates_post_deduct_counters() {
    let clock = TestClock::new(100);
    let mut limiter = Limiter::local_with_clock(clock.clone());
    let l = limits(Some(10), Some(1_000), None);

    let r1 = limiter.pre_commit("k1", &l).unwrap();
    r1.commit_tokens(&mut limiter, 600);

    let _r2 = limiter.pre_commit("k1", &l).unwrap();
}

#[test]
fn tpm_blocks_next_request_once_previous_exhausted_the_window() {
    let clock = TestClock::new(100);
    let mut limiter = Limiter::local_with_clock(clock.clone());
    let l = limits(Some(10), Some(1_000), None);

    let r1 = limiter.pre_commit("k1", &l).unwrap();
    r1.commit_tokens(&mut limiter, 1_500);

    let err = limiter.pre_commit("k1", &l).unwrap_err();
    assert!(matches!(err, RateLimitError::Tokens { .. }));

    clock.advance(61);
    let _r2 = limiter.pre_commit("k1", &l).unwrap();
}

#[test]
fn reservations_for_different_keys_do_not_collide() {
    let clock = TestClock::new(0);
    let mut limiter = Limiter::local_with_clock(clock);
    let l = limits(Some(1), None, None);

    let _r_a = limiter.pre_commit("alpha", &l).unwrap();
    let _r_b = limiter.pre_commit("beta", &l).unwrap();
}

#[test]
fn drop_without_commit_still_releases_concurrency_permit() {
    let clock = TestClock::new(0);
    let mut limiter = Limiter::local_with_clock(clock);
    let l = limits(None, None, Some(1));

    let r = limiter.pre_commit("k1", &l).unwrap();
    r.release(&mut limiter);
    let _r2 = limiter.pre_commit("k1", &l).unwrap();
}

#[test]
fn peek_returns_none_for_unknown_key() {
    let clock = TestClock::new(100);
    let mut limiter = Limiter::local_with_clock(clock);
    assert!(limiter.peek("unknown", &RateLimitConfig::default()).is_none());
}

#[test]
fn peek_reports_current_window_counts() {
    let clock = TestClock::new(100);
    let mut limiter = Limiter::local_with_clock(clock.clone());
    let l = limits(Some(60), Some(100_000), Some(10));

    let r = limiter.pre_commit("k1", &l).unwrap();
    r.commit_tokens(&mut limiter, 500);

    let status = limiter.peek("k1", &l).unwrap();
    assert_eq!(status.rpm_limit, Some(60));
    assert_eq!(status.rpm_used, 1);
    assert_eq!(status.rpm_remaining(), Some(59));
    assert_eq!(status.tpm_limit, Some(100_000));
    assert_eq!(status.tpm_used, 500);
    assert_eq!(status.tpm_remaining(), Some(99_500));
    assert_eq!(status.in_flight, 0);
}

#[test]
fn peek_reflects_in_flight_count_during_dispatch() {
    let clock = TestClock::new(100);
    let mut limiter = Limiter::local_with_clock(clock);
    let l = limits(None, None, Some(5));

    let _r1 = limiter.pre_commit("k1", &l).unwrap();
    let _r2 = limiter.pre_commit("k1", &l).unwrap();
    let status = limiter.peek("k1", &l).unwrap();
    assert_eq!(status.in_flight, 2);
    assert_eq!(status.concurrency_limit, Some(5));
}

#[test]
fn no_limits_means_no_rejections() {
    let clock = TestClock::new(0);
    let mut limiter = Limiter::local_with_clock(clock);
    let l = RateLimitConfig::default();

    for _ in 0..100 {
        let r = limiter.pre_commit("k1", &l).unwrap();
        r.commit_tokens(&mut limiter, 1_000);
    }
}

#[test]
fn rpd_rejection_does_not_grant_fresh_rpm_window() {
    let clock = TestClock::new(100);
    let mut limiter = Limiter::local_with_clock(clock.clone());
    let l = RateLimitConfig { rps: None, rpm: Some(10), rph: None, rpd: Some(20), tpm: None, tpd: None, concurrency: None };
    for i in 0..19 {
        if i == 10 {
            clock.advance(61);
        }
        let _r = limiter.pre_commit("k1", &l).unwrap();
    }
    let _r = limiter.pre_commit("k1", &l).unwrap();
    let err = limiter.pre_commit("k1", &l).unwrap_err();
    assert!(matches!(err, RateLimitError::Requests { .. }), "expected RPD rejection, got {err:?}");
    let err2 = limiter.pre_commit("k1", &l).unwrap_err();
    assert!(
        matches!(err2, RateLimitError::Requests { .. }),
        "RPM should still be capped after RPD rejection; got {err2:?}"
    );
    let status = limiter.peek("k1", &l).unwrap();
    assert_eq!(status.rpm_used, 10, "RPM should not have been reset");
}

#[test]
fn rpd_rejection_preserves_concurrent_rpm_increments() {
    let clock = TestClock::new(100);
    let mut limiter = Limiter::local_with_clock(clock.clone());
    let l = RateLimitConfig { rps: None, rpm: Some(100), rph: None, rpd: Some(5), tpm: None, tpd: None, concurrency: None };
    for _ in 0..5 {
        let _r = limiter.pre_commit("k1", &l).unwrap();
    }
    let err = limiter.pre_commit("k1", &l).unwrap_err();
    assert!(matches!(err, RateLimitError::Requests { .. }));
    let status = limiter.peek("k1", &l).unwrap();
    assert_eq!(status.rpm_used, 5, "rpd rejection wiped concurrent rpm increments");
}

#[test]
fn add_tokens_post_stream_increments_tpm() {
    let clock = TestClock::new(100);
    let mut limiter = Limiter::local_with_clock(clock);
    let l = limits(Some(10), Some(1_000), None);

    let r = limiter.pre_commit("k1", &l).unwrap();
    r.release(&mut limiter);
    assert_eq!(limiter.peek("k1", &l).unwrap().tpm_used, 0, "TPM should be 0 right after pre_commit + drop");

    limiter.add_tokens_post_stream("k1", 750);
    assert_eq!(limiter.peek("k1", &l).unwrap().tpm_used, 750, "TPM should reflect the post-stream commit");
}

#[test]
fn add_tokens_post_stream_zero_is_a_noop() {
    let clock = TestClock::new(100);
    let mut limiter = Limiter::local_with_clock(clock);
    limiter.add_tokens_post_stream("never-seen", 0);
    assert!(
        limiter.peek("never-seen", &RateLimitConfig::default()).is_none(),
        "add_tokens_post_stream(0) should not lazily-create state",
    );
}

#[test]
fn streaming_path_tpm_cap_blocks_next_request_after_post_stream_commit() {
    let clock = TestClock::new(100);
    let mut limiter = Limiter::local_with_clock(clock);
    let l = limits(Some(100), Some(1_000), None);

    let r = limiter.pre_commit("k1", &l).unwrap();
    r.release(&mut limiter);
    limiter.add_tokens_post_stream("k1", 1_500);

    let err = limiter.pre_commit("k1", &l).unwrap_err();
    assert!(
        matches!(err, RateLimitError::Tokens { .. }),
        "TPM cap should block the next request after streaming over-shoot; got {err:?}",
    );
}

#[test]
fn multi_reservation_commit_tokens_updates_all_layers() {
    let clock = TestClock::new(100);
    let mut limiter = Limiter::local_with_clock(clock.clone());
    let l = limits(None, Some(1000), None);

    let r1 = limiter.pre_commit("api_key:k1", &l).unwrap();
    let r2 = limiter.pre_commit("model:gpt-4o", &l).unwrap();
    let multi = MultiReservation::new(vec![r1, r2]);

    multi.commit_tokens(&mut limiter, 500);

    let s1 = limiter.peek("api_key:k1", &l).unwrap();
    let s2 = limiter.peek("model:gpt-4o", &l).unwrap();
    assert_eq!(s1.tpm_used, 500);
    assert_eq!(s2.tpm_used, 500);
}

#[test]
fn multi_reservation_drop_releases_all_concurrency() {
    let clock = TestClock::new(100);
    let mut limiter = Limiter::local_with_clock(clock.clone());
    let l = limits(None, None, Some(1));

    let r1 = limiter.pre_commit("k1", &l).unwrap();
    let r2 = limiter.pre_commit("k2", &l).unwrap();
    let multi = MultiReservation::new(vec![r1, r2]);

    assert!(limiter.pre_commit("k1", &l).is_err());
    assert!(limiter.pre_commit("k2", &l).is_err());

    multi.release(&mut limiter);

    assert!(limiter.pre_commit("k1", &l).is_ok());
    assert!(limiter.pre_commit("k2", &l).is_ok());
}

#[test]
fn stream_hold_keeps_concurrency_until_guard_drop() {
    let clock = TestClock::new(100);
    let mut limiter = Limiter::local_with_clock(clock.clone());
    let l = limits(None, None, Some(1));

    let r = limiter.pre_commit("k", &l).unwrap();
    let mut hold = MultiReservation::new(vec![r]).into_stream_hold();

    assert!(matches!(limiter.pre_commit("k", &l).unwrap_err(), RateLimitError::Concurrency));

    hold.release_now(&mut limiter);
    assert!(limiter.pre_commit("k", &l).is_ok());
}

#[test]
fn stream_hold_release_is_idempotent() {
    let clock = TestClock::new(100);
    let mut limiter = Limiter::local_with_clock(clock.clone());
    let l = limits(None, None, Some(2));

    let r = limiter.pre_commit("k", &l).unwrap();
    let _other = limiter.pre_commit("k", &l).unwrap();
    let mut hold = MultiReservation::new(vec![r]).into_stream_hold();
    hold.release_now(&mut limiter);
    hold.release_now(&mut limiter);
    assert_eq!(limiter.in_flight("k"), 1);
}

#[test]
fn multi_reservation_keys_returns_all_held_keys() {
    let clock = TestClock::new(100);
    let mut limiter = Limiter::local_with_clock(clock.clone());
    let l = limits(Some(10), None, None);

    let r1 = limiter.pre_commit("api_key:k1", &l).unwrap();
    let r2 = limiter.pre_commit("model:m1", &l).unwrap();
    let r3 = limiter.pre_commit("team:t1", &l).unwrap();
    let multi = MultiReservation::new(vec![r1, r2, r3]);

    let keys = multi.keys();
    assert_eq!(keys, vec!["api_key:k1", "model:m1", "team:t1"]);
}

#[test]
fn multi_reservation_merge_commits_and_releases_absorbed_layers() {
    let clock = TestClock::new(100);
    let mut limiter = Limiter::local_with_clock(clock.clone());
    let l = limits(None, Some(1000), Some(1));

    let main = limiter.pre_commit("api_key:k1", &l).unwrap();
    let member = limiter.pre_commit("model:target", &l).unwrap();

    let mut multi = MultiReservation::new(vec![main]);
    multi.merge(MultiReservation::new(vec![member]));
    assert_eq!(multi.keys(), vec!["api_key:k1", "model:target"]);

    multi.commit_tokens(&mut limiter, 300);
    let s = limiter.peek("model:target", &l).unwrap();
    assert_eq!(s.tpm_used, 300);
    assert!(limiter.pre_commit("model:target", &l).is_ok());
}

#[test]
fn multi_reservation_partial_failure_releases_acquired_layers() {
    let clock = TestClock::new(100);
    let mut limiter = Limiter::local_with_clock(clock.clone());
    let l_key = limits(None, None, Some(1));
    let l_team = limits(None, None, Some(1));
    let l_model = limits(Some(1), None, None);

    let _exhaust = limiter.pre_commit("model:m1", &l_model).unwrap();

    let r_key = limiter.pre_commit("k1", &l_key).unwrap();
    let r_team = limiter.pre_commit("team:t1", &l_team).unwrap();
    let acquired = vec![r_key, r_team];

    assert!(limiter.pre_commit("k1", &l_key).is_err());
    assert!(limiter.pre_commit("team:t1", &l_team).is_err());

    assert!(limiter.pre_commit("model:m1", &l_model).is_err());
    MultiReservation::new(acquired).release(&mut limiter);

    assert!(limiter.pre_commit("k1", &l_key).is_ok());
    assert!(limiter.pre_commit("team:t1", &l_team).is_ok());
}

#[test]
fn rps_caps_request_count_within_one_second() {
    let clock = TestClock::new(100);
    let mut limiter = Limiter::local_with_clock(clock.clone());
    let l = limits_full(Some(5), None, None, None);

    for i in 0..5 {
        limiter.pre_commit("k1", &l).unwrap_or_else(|e| panic!("request {i}: {e:?}"));
    }
    let err = limiter.pre_commit("k1", &l).unwrap_err();
    assert!(matches!(err, RateLimitError::Requests { .. }), "expected rps rejection, got {err:?}");
}

#[test]
fn rps_window_rolls_at_one_second_boundary() {
    let clock = TestClock::new(100);
    let mut limiter = Limiter::local_with_clock(clock.clone());
    let l = limits_full(Some(3), None, None, None);

    for _ in 0..3 {
        limiter.pre_commit("k1", &l).unwrap();
    }
    assert!(limiter.pre_commit("k1", &l).is_err());

    clock.advance(1);
    for _ in 0..3 {
        limiter.pre_commit("k1", &l).unwrap();
    }
    assert!(limiter.pre_commit("k1", &l).is_err());
}

#[test]
fn rph_caps_request_count_within_one_hour() {
    let clock = TestClock::new(100);
    let mut limiter = Limiter::local_with_clock(clock.clone());
    let l = limits_full(None, None, Some(10), None);

    for i in 0..10 {
        limiter.pre_commit("k1", &l).unwrap_or_else(|e| panic!("request {i}: {e:?}"));
    }
    let err = limiter.pre_commit("k1", &l).unwrap_err();
    assert!(matches!(err, RateLimitError::Requests { .. }), "expected rph rejection, got {err:?}");

    clock.advance(3601);
    limiter.pre_commit("k1", &l).unwrap();
}

#[test]
fn rpd_rejection_rolls_back_rps_and_rph_increments() {
    let clock = TestClock::new(100);
    let mut limiter = Limiter::local_with_clock(clock.clone());
    let l = limits_full(Some(1000), Some(1000), Some(1000), Some(2));

    limiter.pre_commit("k1", &l).unwrap();
    limiter.pre_commit("k1", &l).unwrap();
    let err = limiter.pre_commit("k1", &l).unwrap_err();
    assert!(matches!(err, RateLimitError::Requests { .. }));

    let status = limiter.peek("k1", &l).unwrap();
    assert_eq!(status.rpm_used, 2, "rpd rejection must roll back rpm by exactly 1, leaving the two earlier accepts");
}

#[test]
fn rph_rejection_rolls_back_rps_and_rpm_increments() {
    let clock = TestClock::new(100);
    let mut limiter = Limiter::local_with_clock(clock.clone());
    let l = limits_full(Some(1000), Some(1000), Some(2), None);

    limiter.pre_commit("k1", &l).unwrap();
    limiter.pre_commit("k1", &l).unwrap();
    let err = limiter.pre_commit("k1", &l).unwrap_err();
    assert!(matches!(err, RateLimitError::Requests { .. }));
    let status = limiter.peek("k1", &l).unwrap();
    assert_eq!(status.rpm_used, 2, "rph rejection must roll back rpm by exactly 1, leaving the two earlier accepts");
}

#[test]
fn rps_layer_disabled_when_field_unset() {
    let clock = TestClock::new(100);
    let mut limiter = Limiter::local_with_clock(clock.clone());
    let l = limits_full(None, Some(5), None, None);

    for _ in 0..5 {
        limiter.pre_commit("k1", &l).unwrap();
    }
    let err = limiter.pre_commit("k1", &l).unwrap_err();
    assert!(matches!(err, RateLimitError::Requests { .. }));
}

#[test]
fn second_peek_at_same_time_shows_the_same() {
    let clock = TestClock::new(100);
    let mut limiter = Limiter::local_with_clock(clock);
    let l = limits(Some(10), Some(1000), Some(3));
    let r = limiter.pre_commit("k", &l).unwrap();
    r.commit_tokens(&mut limiter, 40);
    let a = limiter.peek("k", &l).unwrap();
    let b = limiter.peek("k", &l).unwrap();
    assert_eq!(a, b);
    limiter.add_tokens_post_stream("never-seen", 0);
    assert!(limiter.peek("never-seen", &l).is_none());
}

#[test]
fn refused_request_leaves_status_unchanged() {
    let clock = TestClock::new(100);
    let mut limiter = Limiter::local_with_clock(clock);
    let l = limits(Some(1), None, None);
    let r = limiter.pre_commit("k", &l).unwrap();
    r.commit_tokens(&mut limiter, 5);
    let before = limiter.peek("k", &l).unwrap();
    assert!(matches!(limiter.pre_commit("k", &l), Err(RateLimitError::Requests { .. })));
    let after = limiter.peek("k", &l).unwrap();
    assert_eq!((after.rpm_used, after.tpm_used, after.in_flight), (before.rpm_used, before.tpm_used, before.in_flight));
}

#[test]
fn commit_and_release_show_in_peek() {
    let clock = TestClock::new(100);
    let mut limiter = Limiter::local_with_clock(clock);
    let l = limits(Some(10), Some(1000), Some(3));
    let r1 = limiter.pre_commit("k", &l).unwrap();
    let r2 = limiter.pre_commit("k", &l).unwrap();
    let s0 = limiter.peek("k", &l).unwrap();
    assert_eq!((s0.rpm_used, s0.tpm_used, s0.in_flight), (2, 0, 2));
    r1.commit_tokens(&mut limiter, 30);
    let s1 = limiter.peek("k", &l).unwrap();
    assert_eq!((s1.rpm_used, s1.tpm_used, s1.in_flight), (2, 30, 1));
    r2.release(&mut limiter);
    let s2 = limiter.peek("k", &l).unwrap();
    assert_eq!((s2.rpm_used, s2.tpm_used, s2.in_flight), (2, 30, 0));
}

#[test]
fn try_pre_commit_acts_as_pre_commit_below_the_slot_ceiling() {
    let clock = TestClock::new(100);
    let mut limiter = Limiter::local_with_clock(clock);
    let l = limits(None, None, Some(1));
    let r = limiter.try_pre_commit("k", &l).unwrap();
    assert!(matches!(limiter.try_pre_commit("k", &l), Err(RateLimitError::Concurrency)));
    r.release(&mut limiter);
    let r2 = limiter.try_pre_commit("k", &limits(None, None, None)).unwrap();
    r2.release(&mut limiter);
}
