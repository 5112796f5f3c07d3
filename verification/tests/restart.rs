//! The restart policy and the backoff schedule.
use ktesio_engine::duration::Duration;
use ktesio_engine::restart::{
    is_crash_loop, BackoffSchedule, RestartPolicy, MAX_CONSECUTIVE_FAILURES,
};

#[test]
fn production_constants_are_exactly_the_spine_values() {
    let sched = BackoffSchedule::production();
    assert_eq!(sched.base(), Duration::from_secs(1));
    assert_eq!(sched.cap(), Duration::from_secs(60));
    assert_eq!(MAX_CONSECUTIVE_FAILURES, 5);
}

#[test]
fn default_backoff_is_the_production_schedule() {
    assert_eq!(BackoffSchedule::default(), BackoffSchedule::production());
}

#[test]
fn backoff_sequence_is_1_2_4_8_16_32_then_capped_at_60() {
    let s = BackoffSchedule::production();
    assert_eq!(s.delay_for(1), Duration::from_secs(1));
    assert_eq!(s.delay_for(2), Duration::from_secs(2));
    assert_eq!(s.delay_for(3), Duration::from_secs(4));
    assert_eq!(s.delay_for(4), Duration::from_secs(8));
    assert_eq!(s.delay_for(5), Duration::from_secs(16));
    assert_eq!(s.delay_for(6), Duration::from_secs(32));
    assert_eq!(s.delay_for(7), Duration::from_secs(60));
    assert_eq!(s.delay_for(8), Duration::from_secs(60));
    assert_eq!(s.delay_for(20), Duration::from_secs(60));
}

#[test]
fn delay_for_zero_is_treated_as_first_restart() {
    let s = BackoffSchedule::production();
    assert_eq!(s.delay_for(0), s.delay_for(1));
    assert_eq!(s.delay_for(0), Duration::from_secs(1));
}

#[test]
fn delay_for_huge_n_clamps_to_cap_without_overflow() {
    let s = BackoffSchedule::production();
    assert_eq!(s.delay_for(u32::MAX), Duration::from_secs(60));
    assert_eq!(s.delay_for(1000), Duration::from_secs(60));
}

#[test]
fn crash_loop_trips_at_exactly_five() {
    assert!(!is_crash_loop(0));
    assert!(!is_crash_loop(1));
    assert!(!is_crash_loop(4));
    assert!(is_crash_loop(5));
    assert!(is_crash_loop(6));
    assert!(is_crash_loop(100));
}

#[test]
fn never_policy_does_not_restart_on_crash() {
    assert!(!RestartPolicy::Never.restarts_on_crash());
    assert!(RestartPolicy::OnFailure.restarts_on_crash());
}

#[test]
fn default_policy_is_on_failure() {
    assert_eq!(RestartPolicy::default(), RestartPolicy::OnFailure);
}

#[test]
fn policy_wire_form_round_trips() {
    for policy in [RestartPolicy::Never, RestartPolicy::OnFailure] {
        let wire = policy.as_str();
        assert_eq!(RestartPolicy::from_wire(wire), Some(policy), "{wire}");
    }
    assert_eq!(RestartPolicy::from_wire("bogus"), None);
    assert_eq!(RestartPolicy::OnFailure.as_str(), "on-failure");
    assert_eq!(RestartPolicy::from_wire("never"), Some(RestartPolicy::Never));
}

#[test]
fn scaled_schedule_preserves_the_doubling_shape() {
    let s = BackoffSchedule::with_base_and_cap(
        Duration::from_millis(10),
        Duration::from_millis(50),
    );
    assert_eq!(s.delay_for(1), Duration::from_millis(10));
    assert_eq!(s.delay_for(2), Duration::from_millis(20));
    assert_eq!(s.delay_for(3), Duration::from_millis(40));
    assert_eq!(s.delay_for(4), Duration::from_millis(50));
    assert_eq!(s.delay_for(10), Duration::from_millis(50));
}

#[test]
fn delays_never_shrink_and_never_pass_the_cap() {
    let s = BackoffSchedule::with_base_and_cap(Duration::from_nanos(3), Duration::from_nanos(100));
    let mut last: u128 = 0;
    for n in 1..200u32 {
        let delay = s.delay_for(n).as_nanos();
        assert!(delay >= last, "{n}");
        assert!(delay <= 100, "{n}");
        last = delay;
    }
    assert_eq!(last, 100);
}

#[test]
fn a_zero_base_never_waits() {
    let s = BackoffSchedule::with_base_and_cap(Duration::from_nanos(0), Duration::from_secs(1));
    assert_eq!(s.delay_for(1), Duration::from_nanos(0));
    for attempt in [0, 9, 63, 64, 65, 66, 127, 128, 129, u32::MAX] {
        assert_eq!(s.delay_for(attempt), Duration::from_nanos(0), "attempt {attempt}");
    }
}

#[test]
fn a_base_above_the_cap_waits_the_cap() {
    let s = BackoffSchedule::with_base_and_cap(Duration::from_secs(5), Duration::from_secs(2));
    for attempt in [1, 2, 64, u32::MAX] {
        assert_eq!(s.delay_for(attempt), Duration::from_secs(2), "attempt {attempt}");
    }
    let s = BackoffSchedule::with_base_and_cap(
        Duration::from_nanos(1),
        Duration::from_secs(u64::MAX),
    );
    assert_eq!(s.delay_for(65), Duration { nanos: 1 << 64 });
}

#[test]
fn durations_convert() {
    assert_eq!(Duration::from_secs(2).as_nanos(), 2_000_000_000);
    assert_eq!(Duration::from_millis(1500).as_millis_u64(), 1500);
    assert_eq!(Duration::from_millis(1500).as_secs(), 1);
}
