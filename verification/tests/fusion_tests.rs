//! Signal fusion: target composition, the tie-break rule, and the
//! whole slow-tick policy against the guard.

use auto_brightness::config::LocationConfig;
use auto_brightness::context::{ContextManager, UtcMoment};
use auto_brightness::epilepsy::{EpilepsyGuard, SafetyMode};
use auto_brightness::fusion::{
    compose_fused_target, decide_policy, evaluate_policy, persist_tick_due, policy_tick_due,
    slow_drift_tick_due, PolicyDecision,
};

fn ctx() -> ContextManager {
    let config = LocationConfig {
        latitude: Some(41_008_200),
        longitude: Some(28_978_400),
        method: "dummy".to_string(),
        timezone: "Europe/Istanbul".to_string(),
    };
    ContextManager::new(&config, "07:00")
}

// around the June solstice, noon over Istanbul: full daylight target
fn noon() -> UtcMoment {
    UtcMoment { ordinal: 172, hour: 9, minute: 0, second: 0 }
}

#[test]
fn test_compose_factors() {
    // neutral factors leave the circadian target alone
    assert_eq!(compose_fused_target(50_000, 1_000, 1_000, false), 50_000);
    // a factor within one percent of neutral is not applied
    assert_eq!(compose_fused_target(50_000, 995, 992, false), 50_000);
    // weather dims multiplicatively
    assert_eq!(compose_fused_target(50_000, 800, 1_000, false), 40_000);
    // content dims multiplicatively
    assert_eq!(compose_fused_target(50_000, 1_000, 50, false), 2_500);
    // battery applies a flat 0.8
    assert_eq!(compose_fused_target(50_000, 1_000, 1_000, true), 40_000);
    // all together: 50 * 0.8 * 0.5 * 0.8 = 16%
    assert_eq!(compose_fused_target(50_000, 800, 500, true), 16_000);
}

#[test]
fn test_decide_priorities() {
    // content-driven dimming always wins
    assert_eq!(decide_policy(50_000, 10_000, 100, false), PolicyDecision::Instant);
    // the same gap without content pressure moves smoothly
    assert_eq!(decide_policy(50_000, 10_000, 1_000, false), PolicyDecision::Smooth);
    // a gap above five percent moves smoothly
    assert_eq!(decide_policy(50_000, 56_000, 1_000, false), PolicyDecision::Smooth);
    // a small gap moves only on the slow-drift cadence
    assert_eq!(decide_policy(50_000, 53_000, 1_000, false), PolicyDecision::Hold);
    assert_eq!(decide_policy(50_000, 53_000, 1_000, true), PolicyDecision::Smooth);
    // gaps inside one percent always hold
    assert_eq!(decide_policy(50_000, 50_500, 1_000, true), PolicyDecision::Hold);
}

#[test]
fn test_evaluate_policy_flashbang_path() {
    let mut guard = EpilepsyGuard::new(80_000, 0);
    // hot content: multiplier 50 drives the target far down, fast
    evaluate_policy(&mut guard, &ctx(), noon(), 1_000, 1_000, 50, false, false);
    let tr = guard.transition.expect("a safety transition should start");
    assert_eq!(tr.duration_ms, 200);
    assert!(tr.target_brightness < 10_000);
}

#[test]
fn test_evaluate_policy_smooth_path() {
    let mut guard = EpilepsyGuard::new(20_000, 0);
    evaluate_policy(&mut guard, &ctx(), noon(), 1_000, 1_000, 1_000, false, false);
    let tr = guard.transition.expect("a smooth transition should start");
    assert_eq!(tr.duration_ms, 750);
    assert!(tr.target_brightness > 50_000);
}

#[test]
fn test_evaluate_policy_suppressed() {
    // grace period after a user override
    let mut guard = EpilepsyGuard::new(20_000, 0);
    guard.set_user_override(500);
    evaluate_policy(&mut guard, &ctx(), noon(), 1_000, 1_000, 1_000, false, false);
    assert!(guard.transition.is_none());

    // locked
    let mut guard = EpilepsyGuard::new(20_000, 0);
    guard.is_locked = true;
    evaluate_policy(&mut guard, &ctx(), noon(), 1_000, 1_000, 1_000, false, false);
    assert!(guard.transition.is_none());

    // emergency stop
    let mut guard = EpilepsyGuard::new(20_000, 0);
    guard.mode = SafetyMode::EmergencyStop;
    evaluate_policy(&mut guard, &ctx(), noon(), 1_000, 1_000, 1_000, false, false);
    assert!(guard.transition.is_none());
}

#[test]
fn test_tick_cadences() {
    assert!(policy_tick_due(0));
    assert!(!policy_tick_due(124));
    assert!(policy_tick_due(125));
    assert!(slow_drift_tick_due(75_000));
    assert!(!slow_drift_tick_due(74_999));
    assert!(persist_tick_due(625));
    assert!(!persist_tick_due(626));
}
