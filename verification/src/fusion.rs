//! The per-second policy: fuse the circadian target with the weather
//! scalar, the content multiplier and the power source, and decide
//! whether and how fast to move the display toward the result.
//!
//! Factors are milli-units (1000 is neutral); brightness is
//! milli-percent.

use vstd::prelude::*;

use crate::context::{ContextManager, UtcMoment};
use crate::epilepsy::{spec_abs_diff, EpilepsyGuard, SafetyMode};

verus! {

/// Suppress automatic policy for this long after a user override.
pub const GRACE_PERIOD_MS: u64 = 1800 * 1000;

/// A factor this close to neutral is not applied at all.
pub const FACTOR_NEUTRAL_BAND: i64 = 990;

/// Flat factor applied while on battery.
pub const BATTERY_FACTOR: i64 = 800;

/// The fused target: the circadian target scaled by the weather
/// factor and content multiplier where they dim meaningfully, and by
/// the battery factor on battery power.
pub open spec fn spec_fused_target(
    circadian: int,
    weather: int,
    content: int,
    on_battery: bool,
) -> int {
    let t1 = if weather < FACTOR_NEUTRAL_BAND {
        (circadian * weather) / 1000
    } else {
        circadian
    };
    let t2 = if content < FACTOR_NEUTRAL_BAND {
        (t1 * content) / 1000
    } else {
        t1
    };
    if on_battery {
        (t2 * BATTERY_FACTOR) / 1000
    } else {
        t2
    }
}

/// Scale a brightness by a milli-factor of at most one.
fn apply_factor(value: i64, factor: i64) -> (r: i64)
    requires
        0 <= value <= 100000,
        0 <= factor <= 1000,
    ensures
        r == (value * factor) / 1000,
        0 <= r <= value,
{
    proof {
        assert(value * factor <= 100000 * 1000) by (nonlinear_arith)
            requires
                0 <= value <= 100000,
                0 <= factor <= 1000,
        ;
        assert(value * factor >= 0) by (nonlinear_arith)
            requires
                0 <= value,
                0 <= factor,
        ;
    }
    let prod = (value as u64) * (factor as u64);
    let q = prod / 1000;
    proof {
        assert(prod <= value * 1000) by (nonlinear_arith)
            requires
                prod == value * factor,
                0 <= value,
                0 <= factor <= 1000,
        ;
        vstd::arithmetic::div_mod::lemma_div_is_ordered(prod as int, value * 1000, 1000);
        vstd::arithmetic::div_mod::lemma_div_multiples_vanish(value as int, 1000);
        vstd::arithmetic::div_mod::lemma_div_pos_is_pos(prod as int, 1000);
    }
    q as i64
}

/// Compose the fused target from the four signals.
pub fn compose_fused_target(
    circadian: i64,
    weather: i64,
    content: i64,
    on_battery: bool,
) -> (r: i64)
    requires
        0 <= circadian <= 100000,
        1 <= weather <= 1000,
        1 <= content <= 1000,
    ensures
        r == spec_fused_target(circadian as int, weather as int, content as int, on_battery),
        0 <= r <= circadian,
{
    let t1 = if weather < FACTOR_NEUTRAL_BAND {
        apply_factor(circadian, weather)
    } else {
        circadian
    };
    let t2 = if content < FACTOR_NEUTRAL_BAND {
        apply_factor(t1, content)
    } else {
        t1
    };
    if on_battery {
        apply_factor(t2, BATTERY_FACTOR)
    } else {
        t2
    }
}

/// What the policy does with a fused target.
#[derive(Debug, Clone, Copy, PartialEq, Eq, Structural)]
pub enum PolicyDecision {
    /// Safety-critical content dimming: move fast.
    Instant,
    /// Material drift: move smoothly.
    Smooth,
    /// Small differences are left alone to avoid visible breathing.
    Hold,
}

/// The tie-break rule, in priority order: content-driven dimming
/// always wins and is fast; a drift above five percent moves
/// smoothly; a drift above one percent moves smoothly only when the
/// slow-drift interval has elapsed; anything else holds.
pub open spec fn spec_decide_policy(
    current: int,
    target: int,
    content: int,
    slow_drift_due: bool,
) -> PolicyDecision {
    if target < current - 1000 && content < FACTOR_NEUTRAL_BAND {
        PolicyDecision::Instant
    } else if spec_abs_diff(current, target) > 5000 {
        PolicyDecision::Smooth
    } else if spec_abs_diff(current, target) > 1000 && slow_drift_due {
        PolicyDecision::Smooth
    } else {
        PolicyDecision::Hold
    }
}

pub fn decide_policy(current: i64, target: i64, content: i64, slow_drift_due: bool) -> (r:
    PolicyDecision)
    requires
        0 <= current <= 100000,
        0 <= target <= 100000,
    ensures
        r == spec_decide_policy(current as int, target as int, content as int, slow_drift_due),
{
    if target < current - 1000 && content < FACTOR_NEUTRAL_BAND {
        PolicyDecision::Instant
    } else {
        let diff = if current >= target {
            current - target
        } else {
            target - current
        };
        if diff > 5000 {
            PolicyDecision::Smooth
        } else if diff > 1000 && slow_drift_due {
            PolicyDecision::Smooth
        } else {
            PolicyDecision::Hold
        }
    }
}

/// One slow-cadence policy evaluation: skipped entirely while the
/// guard is locked, not in `Automatic`, or within the grace period;
/// otherwise the fused target is computed and applied according to
/// the tie-break rule.
pub fn evaluate_policy(
    guard: &mut EpilepsyGuard,
    ctx: &ContextManager,
    t: UtcMoment,
    now_ms: u64,
    weather: i64,
    content_multiplier: i64,
    on_battery: bool,
    slow_drift_due: bool,
)
    requires
        old(guard).wf(),
        ctx.wf(),
        t.wf(),
        1 <= weather <= 1000,
        1 <= content_multiplier <= 1000,
    ensures
        final(guard).wf(),
        old(guard).spec_in_safe_range() ==> final(guard).spec_in_safe_range(),
        ({
            let g = *old(guard);
            if g.is_locked || g.mode != SafetyMode::Automatic || g.spec_in_grace(
                GRACE_PERIOD_MS,
                now_ms,
            ) {
                *final(guard) == g
            } else {
                let target = spec_fused_target(
                    ctx.spec_circadian_target(t),
                    weather as int,
                    content_multiplier as int,
                    on_battery,
                );
                match spec_decide_policy(
                    g.current_brightness as int,
                    target,
                    content_multiplier as int,
                    slow_drift_due,
                ) {
                    PolicyDecision::Instant => *final(guard) == g.spec_force_result(
                        target,
                        now_ms,
                    ),
                    PolicyDecision::Smooth => *final(guard) == g.spec_request_result(
                        target,
                        now_ms,
                    ),
                    PolicyDecision::Hold => *final(guard) == g,
                }
            }
        }),
{
    if guard.is_locked || guard.mode != SafetyMode::Automatic {
        return ;
    }
    if guard.is_in_grace_period(GRACE_PERIOD_MS, now_ms) {
        return ;
    }

    let circadian = ctx.get_circadian_target(t);
    let target = compose_fused_target(circadian, weather, content_multiplier, on_battery);

    match decide_policy(guard.current_brightness, target, content_multiplier, slow_drift_due) {
        PolicyDecision::Instant => guard.force_instant_transition(target, now_ms),
        PolicyDecision::Smooth => guard.request_transition(target, now_ms),
        PolicyDecision::Hold => {},
    }
}

/// The slow policy cadence: once every 125 fast ticks (once a second
/// at the fast tick rate).
pub fn policy_tick_due(tick: u64) -> (r: bool)
    ensures
        r == (tick % 125 == 0),
{
    tick % 125 == 0
}

/// The slow-drift correction cadence: roughly every ten minutes of
/// fast ticks.
pub fn slow_drift_tick_due(tick: u64) -> (r: bool)
    ensures
        r == (tick % 75000 == 0),
{
    tick % 75000 == 0
}

/// The persistence cadence while a transition is animating: every
/// five seconds of fast ticks.
pub fn persist_tick_due(tick: u64) -> (r: bool)
    ensures
        r == (tick % 625 == 0),
{
    tick % 625 == 0
}

} // verus!
