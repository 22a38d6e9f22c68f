//! The safety guard's behavior, driven with explicit clock values.
//! Brightness is milli-percent (50_000 is 50%), times are
//! milliseconds.

use auto_brightness::epilepsy::{EpilepsyGuard, SafetyMode};

#[test]
fn test_initialization() {
    let guard = EpilepsyGuard::new(50_000, 0);
    assert_eq!(guard.current_brightness, 50_000);
    assert_eq!(guard.mode, SafetyMode::Automatic);
}

#[test]
fn test_frequency_limit() {
    let guard = EpilepsyGuard::new(50_000, 1_000);
    // Initially blocked: the last change was just now and the minimum
    // safe interval is ~333 ms
    assert!(!guard.can_update(1_000));

    // After waiting 350 ms the update is allowed
    assert!(guard.can_update(1_350));
}

#[test]
fn test_step_limit() {
    let mut guard = EpilepsyGuard::new(50_000, 0);

    // Try to jump to 100%
    let next = guard.calculate_next_step(100_000, 400);

    // Should only increase by the maximum step of 2%
    assert_eq!(next, 52_000);
    assert_eq!(guard.current_brightness, next);
}

#[test]
fn test_transition_duration() {
    let mut guard = EpilepsyGuard::new(20_000, 0);

    // Request a move to 80%; the transition uses the configured
    // duration (default 750 ms)
    guard.request_transition(80_000, 0);

    if let Some(trans) = guard.transition {
        assert_eq!(trans.duration_ms, 750);
    } else {
        panic!("Transition not started");
    }
}

#[test]
fn test_emergency_stop() {
    let mut guard = EpilepsyGuard::new(50_000, 0);
    guard.mode = SafetyMode::EmergencyStop;

    let next = guard.calculate_next_step(100_000, 400);
    assert_eq!(next, 50_000); // No change allowed

    guard.request_transition(80_000, 400);
    assert!(guard.transition.is_none()); // No transition allowed
}

#[test]
fn test_transition_update() {
    let mut guard = EpilepsyGuard::new(50_000, 0);
    guard.request_transition(80_000, 0);

    // Check state
    assert!(guard.transition.is_some());
    assert_eq!(guard.transition.as_ref().unwrap().target_brightness, 80_000);

    // Interrupt with new target
    guard.request_transition(20_000, 10);
    assert_eq!(guard.transition.as_ref().unwrap().target_brightness, 20_000);

    // Interrupt with instant
    guard.force_instant_transition(100_000, 20);
    assert_eq!(guard.transition.as_ref().unwrap().target_brightness, 100_000);
    assert_eq!(guard.transition.as_ref().unwrap().duration_ms, 200);
}

#[test]
fn test_step_delta_bounded_for_many_targets() {
    // the single-step change never exceeds 2% whatever the target
    let targets: Vec<i64> = vec![0, 4_000, 5_000, 30_000, 49_950, 50_200, 99_999, 100_000, 500_000];
    for (i, t) in targets.iter().enumerate() {
        let mut guard = EpilepsyGuard::new(50_000, 0);
        let next = guard.calculate_next_step(*t, 400 + i as u64);
        assert!((next - 50_000).abs() <= 2_000);
    }
}

#[test]
fn test_step_dead_band_holds_still() {
    let mut guard = EpilepsyGuard::new(50_000, 0);
    // a difference below 0.1% is ignored and the change clock is not
    // stamped
    let next = guard.calculate_next_step(50_050, 400);
    assert_eq!(next, 50_000);
    assert_eq!(guard.last_change_time_ms, 0);
    assert!(guard.can_update(400));
}

#[test]
fn test_frequency_floor_after_step() {
    let mut guard = EpilepsyGuard::new(50_000, 0);
    guard.calculate_next_step(60_000, 1_000);
    assert!(!guard.can_update(1_000));
    assert!(!guard.can_update(1_332));
    assert!(guard.can_update(1_333));
}

#[test]
fn test_transition_midpoint_and_completion() {
    let mut guard = EpilepsyGuard::new(20_000, 0);
    guard.request_transition(80_000, 10);

    // halfway through the 750 ms transition the eased value is the
    // arithmetic midpoint of a symmetric curve
    let mid = guard.tick_transition(10 + 375).expect("transition should be animating");
    assert_eq!(mid, 50_000);
    assert!(20_000 < mid && mid < 80_000);

    // at (or past) the duration the value snaps to the target exactly
    // and the transition is cleared
    let done = guard.tick_transition(10 + 750).expect("completion tick should report");
    assert_eq!(done, 80_000);
    assert!(guard.transition.is_none());
    assert_eq!(guard.current_brightness, 80_000);
}

#[test]
fn test_transition_quarter_point_between_endpoints() {
    let mut guard = EpilepsyGuard::new(20_000, 0);
    guard.request_transition(80_000, 0);
    let v = guard.tick_transition(187).expect("transition should be animating");
    // quarter of the way in time, an eased S-curve has covered an
    // eighth of the distance
    assert!(20_000 < v && v < 50_000);
    assert_eq!(v, 27_460);
}

#[test]
fn test_tick_under_emergency_stop_cancels() {
    let mut guard = EpilepsyGuard::new(20_000, 0);
    guard.request_transition(80_000, 0);
    guard.mode = SafetyMode::EmergencyStop;
    assert_eq!(guard.tick_transition(100), None);
    assert!(guard.transition.is_none());
    assert_eq!(guard.current_brightness, 20_000);
}

#[test]
fn test_request_debounce_keeps_flight() {
    let mut guard = EpilepsyGuard::new(20_000, 0);
    guard.request_transition(80_000, 0);
    // a target within the 0.1% dead-band of the in-flight one is
    // ignored and the easing clock keeps running
    guard.request_transition(80_050, 300);
    assert_eq!(guard.transition.as_ref().unwrap().start_time_ms, 0);
    assert_eq!(guard.transition.as_ref().unwrap().target_brightness, 80_000);
}

#[test]
fn test_set_transition_duration_clamps() {
    let mut guard = EpilepsyGuard::new(20_000, 0);
    guard.set_transition_duration(100);
    assert_eq!(guard.transition_duration_ms, 300);
    guard.set_transition_duration(5_000);
    assert_eq!(guard.transition_duration_ms, 2_000);
    guard.set_transition_duration(1_200);
    assert_eq!(guard.transition_duration_ms, 1_200);
}

#[test]
fn test_grace_period_tracking() {
    let mut guard = EpilepsyGuard::new(20_000, 0);
    assert!(!guard.is_in_grace_period(1_800_000, 10));
    guard.set_user_override(1_000);
    assert!(guard.is_in_grace_period(1_800_000, 1_000));
    assert!(guard.is_in_grace_period(1_800_000, 1_800_999));
    assert!(!guard.is_in_grace_period(1_800_000, 1_801_000));
}

#[test]
fn test_transition_target_floored_at_safe_minimum() {
    // a request below the 5% floor starts a transition to the floor,
    // never below it
    let mut guard = EpilepsyGuard::new(50_000, 0);
    guard.request_transition(2_000, 10);
    assert_eq!(guard.transition.as_ref().unwrap().target_brightness, 5_000);

    let mut guard = EpilepsyGuard::new(50_000, 0);
    guard.force_instant_transition(0, 10);
    assert_eq!(guard.transition.as_ref().unwrap().target_brightness, 5_000);
}

#[test]
fn test_force_under_emergency_stop_targets_zero() {
    // under EmergencyStop a forced transition carries the explicit 0,
    // and ticking emits nothing
    let mut guard = EpilepsyGuard::new(50_000, 0);
    guard.mode = SafetyMode::EmergencyStop;
    guard.force_instant_transition(80_000, 10);
    assert_eq!(guard.transition.as_ref().unwrap().target_brightness, 0);
    assert_eq!(guard.tick_transition(100), None);
    assert!(guard.transition.is_none());
    assert_eq!(guard.current_brightness, 50_000);
}

#[test]
fn test_ticked_values_stay_in_safe_range() {
    // with endpoints in the safe range, every emitted value is too
    let mut guard = EpilepsyGuard::new(5_000, 0);
    guard.request_transition(100_000, 0);
    let mut t: u64 = 50;
    while t < 750 {
        let v = guard.tick_transition(t).expect("transition should be animating");
        assert!((5_000..=100_000).contains(&v));
        t += 50;
    }
    assert_eq!(guard.tick_transition(750), Some(100_000));
}

#[test]
fn test_step_from_low_brightness_enters_safe_range() {
    // from 0% a step lands at the 5% floor; this is the one case
    // where the change exceeds the per-step delta
    let mut guard = EpilepsyGuard::new(0, 0);
    let next = guard.calculate_next_step(100_000, 400);
    assert_eq!(next, 5_000);
}
