//! The safety core: a state machine over operating mode and an optional
//! in-flight transition, enforcing a minimum interval between applied
//! changes, a maximum per-step delta, and bounded-duration eased
//! transitions.
//!
//! Brightness values are milli-percent (thousandths of a percent), so
//! `100_000` is full output. Callers pass the current time in
//! milliseconds from a monotonic clock.

use vstd::prelude::*;
use vstd::arithmetic::div_mod::{
    lemma_div_is_ordered, lemma_div_multiples_vanish, lemma_div_pos_is_pos,
    lemma_fundamental_div_mod_converse,
};

verus! {

/// Hard floor between two applied changes, in milliseconds
/// (1000 / maximum change frequency of 3 Hz).
pub const MIN_SAFE_INTERVAL_MS: u64 = 1000 / 3;

/// Largest move a single `calculate_next_step` call may make,
/// in milli-percent (2%).
pub const MAX_DELTA_PER_STEP: i64 = 2000;

/// Differences below this dead-band (0.1%) are ignored.
pub const DEAD_BAND: i64 = 100;

/// Lowest brightness a step may produce, in milli-percent (5%).
pub const MIN_SAFE_BRIGHTNESS: i64 = 5000;

/// Full output in milli-percent.
pub const MAX_BRIGHTNESS: i64 = 100_000;

/// Shortest configurable transition duration, in milliseconds.
pub const MIN_TRANSITION_DURATION_MS: u64 = 300;

/// Longest configurable transition duration, in milliseconds.
pub const MAX_TRANSITION_DURATION_MS: u64 = 2000;

/// Fixed duration of a forced (safety-critical) transition.
pub const INSTANT_TRANSITION_MS: u64 = 200;

/// Default transition duration.
pub const DEFAULT_TRANSITION_DURATION_MS: u64 = 750;

#[derive(Debug, Clone, Copy, PartialEq, Eq, Structural)]
pub enum SafetyMode {
    Automatic,
    EmergencyStop,
}

/// An in-flight eased move of brightness. Exists only while a change is
/// animating; the fields are fixed when the transition starts.
#[derive(Debug, Clone, Copy, PartialEq, Eq, Structural)]
pub struct TransitionState {
    pub current_brightness: i64,
    pub target_brightness: i64,
    pub start_time_ms: u64,
    pub duration_ms: u64,
    pub initial_brightness: i64,
}

pub struct EpilepsyGuard {
    pub mode: SafetyMode,
    pub last_change_time_ms: u64,
    pub current_brightness: i64,
    pub transition: Option<TransitionState>,
    pub last_user_override: Option<u64>,
    pub is_locked: bool,
    pub transition_duration_ms: u64,
}

/// Milliseconds elapsed from `last` to `now` on a monotonic clock;
/// zero if `now` reads behind `last`.
pub open spec fn spec_elapsed(last: u64, now: u64) -> int {
    if now >= last {
        now - last
    } else {
        0
    }
}

/// Clamp a requested brightness into the safe output range.
pub open spec fn spec_clamp_safe(v: int) -> int {
    if v < MIN_SAFE_BRIGHTNESS {
        MIN_SAFE_BRIGHTNESS as int
    } else if v > MAX_BRIGHTNESS {
        MAX_BRIGHTNESS as int
    } else {
        v
    }
}

pub open spec fn spec_min(a: int, b: int) -> int {
    if a <= b {
        a
    } else {
        b
    }
}

pub open spec fn spec_abs_diff(a: int, b: int) -> int {
    if a >= b {
        a - b
    } else {
        b - a
    }
}

impl TransitionState {
    pub open spec fn wf(self) -> bool {
        &&& 0 <= self.initial_brightness <= MAX_BRIGHTNESS
        &&& 0 <= self.current_brightness <= MAX_BRIGHTNESS
        &&& (self.target_brightness == 0 || MIN_SAFE_BRIGHTNESS <= self.target_brightness
            <= MAX_BRIGHTNESS)
        &&& (self.duration_ms == INSTANT_TRANSITION_MS || MIN_TRANSITION_DURATION_MS
            <= self.duration_ms <= MAX_TRANSITION_DURATION_MS)
        &&& spec_abs_diff(self.initial_brightness as int, self.target_brightness as int)
            >= DEAD_BAND
    }
}

/// The easing numerator: a transition at elapsed time `e` of duration
/// `d` has covered the fraction `spec_ease_num(e, d) / (d * d)` of its
/// move. The curve is a symmetric S: quadratic acceleration up to the
/// half-way point, the mirror-image deceleration after it, so velocity
/// is zero at both ends and the half-way value is exactly one half.
pub open spec fn spec_ease_num(e: int, d: int) -> int {
    if 2 * e <= d {
        2 * e * e
    } else {
        d * d - 2 * (d - e) * (d - e)
    }
}

/// The eased brightness at elapsed time `e` of a transition from
/// `initial` to `target` with duration `d`.
pub open spec fn spec_eased_value(initial: int, target: int, e: int, d: int) -> int {
    if target >= initial {
        initial + ((target - initial) * spec_ease_num(e, d)) / (d * d)
    } else {
        initial - ((initial - target) * spec_ease_num(e, d)) / (d * d)
    }
}

impl EpilepsyGuard {
    pub open spec fn wf(self) -> bool {
        &&& 0 <= self.current_brightness <= MAX_BRIGHTNESS
        &&& MIN_TRANSITION_DURATION_MS <= self.transition_duration_ms
            <= MAX_TRANSITION_DURATION_MS
        &&& match self.transition {
            Some(t) => t.wf(),
            None => true,
        }
    }

    /// The safe output range as a predicate: the current brightness
    /// and any in-flight transition endpoints lie in [5%, 100%], so
    /// nothing outside that range can reach the hardware (the
    /// explicit 0 of `EmergencyStop` is never emitted, because
    /// `tick_transition` hands back nothing in that mode). Every
    /// operation preserves this.
    pub open spec fn spec_in_safe_range(self) -> bool {
        &&& MIN_SAFE_BRIGHTNESS <= self.current_brightness <= MAX_BRIGHTNESS
        &&& match self.transition {
            Some(tr) => MIN_SAFE_BRIGHTNESS <= tr.initial_brightness <= MAX_BRIGHTNESS
                && MIN_SAFE_BRIGHTNESS <= tr.target_brightness <= MAX_BRIGHTNESS,
            None => true,
        }
    }

    /// Mode-dependent ceiling applied to every requested target:
    /// 0 under `EmergencyStop`, full output otherwise.
    pub open spec fn spec_safety_cap(self) -> int {
        match self.mode {
            SafetyMode::EmergencyStop => 0,
            _ => MAX_BRIGHTNESS as int,
        }
    }

    /// Whether a direct change may be applied at `now_ms`: never under
    /// `EmergencyStop`, otherwise only after the minimum safe interval
    /// since the last applied change.
    pub open spec fn spec_can_update(self, now_ms: u64) -> bool {
        self.mode != SafetyMode::EmergencyStop && spec_elapsed(self.last_change_time_ms, now_ms)
            >= MIN_SAFE_INTERVAL_MS
    }

    /// The target a step works toward: the request capped by the safety
    /// cap and clamped into the safe range.
    pub open spec fn spec_step_target(self, target: int) -> int {
        spec_clamp_safe(spec_min(target, self.spec_safety_cap()))
    }

    /// Whether `calculate_next_step(target)` applies a change.
    pub open spec fn spec_step_changes(self, target: int) -> bool {
        self.mode != SafetyMode::EmergencyStop && spec_abs_diff(
            self.current_brightness as int,
            self.spec_step_target(target),
        ) >= DEAD_BAND
    }

    /// The brightness after `calculate_next_step(target)`: at most one
    /// step of `MAX_DELTA_PER_STEP` toward the capped target, clamped
    /// into the safe range; unchanged under `EmergencyStop` or inside
    /// the dead-band.
    pub open spec fn spec_step_result(self, target: int) -> int {
        if !self.spec_step_changes(target) {
            self.current_brightness as int
        } else {
            let t = self.spec_step_target(target);
            let diff = t - self.current_brightness;
            let step = if diff > MAX_DELTA_PER_STEP {
                MAX_DELTA_PER_STEP as int
            } else if diff < -MAX_DELTA_PER_STEP {
                -MAX_DELTA_PER_STEP as int
            } else {
                diff
            };
            spec_clamp_safe(self.current_brightness + step)
        }
    }

    pub fn new(initial_brightness: i64, now_ms: u64) -> (r: Self)
        requires
            0 <= initial_brightness <= MAX_BRIGHTNESS,
        ensures
            r.wf(),
            r.mode == SafetyMode::Automatic,
            r.last_change_time_ms == now_ms,
            r.current_brightness == initial_brightness,
            r.transition is None,
            r.last_user_override is None,
            !r.is_locked,
            r.transition_duration_ms == DEFAULT_TRANSITION_DURATION_MS,
    {
        Self {
            mode: SafetyMode::Automatic,
            last_change_time_ms: now_ms,
            current_brightness: initial_brightness,
            transition: None,
            last_user_override: None,
            is_locked: false,
            transition_duration_ms: DEFAULT_TRANSITION_DURATION_MS,
        }
    }

    /// Set the duration used by smooth transitions, clamped to the
    /// safe range of 300 to 2000 milliseconds.
    pub fn set_transition_duration(&mut self, ms: u64)
        ensures
            final(self).transition_duration_ms == if ms < MIN_TRANSITION_DURATION_MS {
                MIN_TRANSITION_DURATION_MS as int
            } else if ms > MAX_TRANSITION_DURATION_MS {
                MAX_TRANSITION_DURATION_MS as int
            } else {
                ms as int
            },
            final(self).mode == old(self).mode,
            final(self).last_change_time_ms == old(self).last_change_time_ms,
            final(self).current_brightness == old(self).current_brightness,
            final(self).transition == old(self).transition,
            final(self).last_user_override == old(self).last_user_override,
            final(self).is_locked == old(self).is_locked,
    {
        self.transition_duration_ms = if ms < MIN_TRANSITION_DURATION_MS {
            MIN_TRANSITION_DURATION_MS
        } else if ms > MAX_TRANSITION_DURATION_MS {
            MAX_TRANSITION_DURATION_MS
        } else {
            ms
        };
    }

    /// Record a direct user change; automatic policy is suppressed for
    /// the grace period that follows.
    pub fn set_user_override(&mut self, now_ms: u64)
        ensures
            *final(self) == old(self).spec_with_override(now_ms),
            final(self).last_user_override == Some(now_ms),
            final(self).mode == old(self).mode,
            final(self).last_change_time_ms == old(self).last_change_time_ms,
            final(self).current_brightness == old(self).current_brightness,
            final(self).transition == old(self).transition,
            final(self).is_locked == old(self).is_locked,
            final(self).transition_duration_ms == old(self).transition_duration_ms,
    {
        self.last_user_override = Some(now_ms);
    }

    pub fn get_safety_cap(&self) -> (r: i64)
        ensures
            r == self.spec_safety_cap(),
    {
        match self.mode {
            SafetyMode::EmergencyStop => 0,
            _ => MAX_BRIGHTNESS,
        }
    }

    /// True while `now_ms` still falls within `duration_ms` of the last
    /// user override.
    pub fn is_in_grace_period(&self, duration_ms: u64, now_ms: u64) -> (r: bool)
        ensures
            r == self.spec_in_grace(duration_ms, now_ms),
    {
        match self.last_user_override {
            Some(t) => {
                let elapsed = if now_ms >= t {
                    now_ms - t
                } else {
                    0
                };
                elapsed < duration_ms
            },
            None => false,
        }
    }

    pub fn can_update(&self, now_ms: u64) -> (r: bool)
        ensures
            r == self.spec_can_update(now_ms),
    {
        if self.mode == SafetyMode::EmergencyStop {
            return false;
        }
        let elapsed = if now_ms >= self.last_change_time_ms {
            now_ms - self.last_change_time_ms
        } else {
            0
        };
        elapsed >= MIN_SAFE_INTERVAL_MS
    }

    fn clamp_safe(val: i64) -> (r: i64)
        ensures
            r == spec_clamp_safe(val as int),
    {
        if val < MIN_SAFE_BRIGHTNESS {
            MIN_SAFE_BRIGHTNESS
        } else if val > MAX_BRIGHTNESS {
            MAX_BRIGHTNESS
        } else {
            val
        }
    }

    /// Single-step, non-eased move toward `target`: the change applied
    /// in one call never exceeds `MAX_DELTA_PER_STEP` while the current
    /// brightness is inside the safe range, and nothing moves under
    /// `EmergencyStop` or inside the dead-band.
    pub fn calculate_next_step(&mut self, target: i64, now_ms: u64) -> (r: i64)
        requires
            old(self).wf(),
        ensures
            final(self).wf(),
            r == old(self).spec_step_result(target as int),
            final(self).current_brightness == r,
            final(self).last_change_time_ms == if old(self).spec_step_changes(target as int) {
                now_ms as int
            } else {
                old(self).last_change_time_ms as int
            },
            final(self).mode == old(self).mode,
            final(self).transition == old(self).transition,
            final(self).last_user_override == old(self).last_user_override,
            final(self).is_locked == old(self).is_locked,
            final(self).transition_duration_ms == old(self).transition_duration_ms,
            old(self).current_brightness >= MIN_SAFE_BRIGHTNESS - MAX_DELTA_PER_STEP
                ==> spec_abs_diff(
                final(self).current_brightness as int,
                old(self).current_brightness as int,
            ) <= MAX_DELTA_PER_STEP,
            old(self).spec_in_safe_range() ==> final(self).spec_in_safe_range(),
    {
        if self.mode == SafetyMode::EmergencyStop {
            return self.current_brightness;
        }

        let cap = self.get_safety_cap();
        let capped = if target <= cap {
            target
        } else {
            cap
        };
        let t = Self::clamp_safe(capped);

        let diff_abs = if self.current_brightness >= t {
            self.current_brightness - t
        } else {
            t - self.current_brightness
        };
        if diff_abs < DEAD_BAND {
            return self.current_brightness;
        }

        let diff = t - self.current_brightness;
        let step = if diff > MAX_DELTA_PER_STEP {
            MAX_DELTA_PER_STEP
        } else if diff < -MAX_DELTA_PER_STEP {
            -MAX_DELTA_PER_STEP
        } else {
            diff
        };

        let new_brightness = Self::clamp_safe(self.current_brightness + step);

        self.current_brightness = new_brightness;
        self.last_change_time_ms = now_ms;

        new_brightness
    }

    /// Whether a transition toward a target within the dead-band of
    /// `t` is already in flight, so a new request for `t` is ignored.
    pub open spec fn spec_trans_debounced(self, t: int) -> bool {
        match self.transition {
            Some(tr) => spec_abs_diff(tr.target_brightness as int, t) < DEAD_BAND,
            None => false,
        }
    }

    /// The guard after recording a user override at `now_ms`.
    pub open spec fn spec_with_override(self, now_ms: u64) -> EpilepsyGuard {
        EpilepsyGuard { last_user_override: Some(now_ms), ..self }
    }

    /// Whether `now_ms` falls within `duration_ms` of the last user
    /// override.
    pub open spec fn spec_in_grace(self, duration_ms: u64, now_ms: u64) -> bool {
        match self.last_user_override {
            Some(t) => spec_elapsed(t, now_ms) < duration_ms,
            None => false,
        }
    }

    /// The target a transition works toward: the explicit 0 under
    /// `EmergencyStop`, else the request capped by the safety cap and
    /// clamped into the safe output range, so no transition can carry
    /// the display below the 5% floor.
    pub open spec fn spec_transition_target(self, target: int) -> int {
        if self.mode == SafetyMode::EmergencyStop {
            0
        } else {
            spec_clamp_safe(spec_min(target, self.spec_safety_cap()))
        }
    }

    /// The guard after `request_transition(target)` at `now_ms`.
    pub open spec fn spec_request_result(self, target: int, now_ms: u64) -> EpilepsyGuard {
        if self.mode == SafetyMode::EmergencyStop {
            self
        } else {
            let t = self.spec_transition_target(target);
            if self.spec_trans_debounced(t) || spec_abs_diff(
                t,
                self.current_brightness as int,
            ) < DEAD_BAND {
                self
            } else {
                EpilepsyGuard {
                    transition: Some(
                        TransitionState {
                            current_brightness: self.current_brightness,
                            initial_brightness: self.current_brightness,
                            target_brightness: t as i64,
                            start_time_ms: now_ms,
                            duration_ms: self.transition_duration_ms,
                        },
                    ),
                    ..self
                }
            }
        }
    }

    /// The guard after `force_instant_transition(target)` at `now_ms`.
    pub open spec fn spec_force_result(self, target: int, now_ms: u64) -> EpilepsyGuard {
        let t = self.spec_transition_target(target);
        if self.spec_trans_debounced(t) || spec_abs_diff(
            t,
            self.current_brightness as int,
        ) < DEAD_BAND {
            self
        } else {
            EpilepsyGuard {
                transition: Some(
                    TransitionState {
                        current_brightness: self.current_brightness,
                        initial_brightness: self.current_brightness,
                        target_brightness: t as i64,
                        start_time_ms: now_ms,
                        duration_ms: INSTANT_TRANSITION_MS,
                    },
                ),
                ..self
            }
        }
    }

    /// Start a smooth transition from the current brightness to
    /// `target` (capped by the safety cap and clamped into the safe
    /// output range) over the configured duration. Ignored under
    /// `EmergencyStop`, when an equivalent transition is already in
    /// flight, or inside the dead-band; a differing in-flight
    /// transition is replaced and the clock restarts.
    pub fn request_transition(&mut self, target: i64, now_ms: u64)
        requires
            old(self).wf(),
        ensures
            final(self).wf(),
            *final(self) == old(self).spec_request_result(target as int, now_ms),
            old(self).spec_in_safe_range() ==> final(self).spec_in_safe_range(),
            final(self).mode == old(self).mode,
            final(self).last_change_time_ms == old(self).last_change_time_ms,
            final(self).current_brightness == old(self).current_brightness,
            final(self).last_user_override == old(self).last_user_override,
            final(self).is_locked == old(self).is_locked,
            final(self).transition_duration_ms == old(self).transition_duration_ms,
            old(self).mode == SafetyMode::EmergencyStop ==> final(self).transition == old(self).transition,
            old(self).mode != SafetyMode::EmergencyStop ==> ({
                let t = old(self).spec_transition_target(target as int);
                if old(self).spec_trans_debounced(t) || spec_abs_diff(
                    t,
                    old(self).current_brightness as int,
                ) < DEAD_BAND {
                    final(self).transition == old(self).transition
                } else {
                    final(self).transition matches Some(tr) && tr.current_brightness == old(self).current_brightness && tr.initial_brightness == old(self).current_brightness
                        && tr.target_brightness == t && tr.start_time_ms == now_ms
                        && tr.duration_ms == old(self).transition_duration_ms
                }
            }),
    {
        if self.mode == SafetyMode::EmergencyStop {
            return ;
        }

        let cap = self.get_safety_cap();
        let capped = if target <= cap {
            target
        } else {
            cap
        };
        let target = Self::clamp_safe(capped);

        if let Some(trans) = &self.transition {
            let d = if trans.target_brightness >= target {
                trans.target_brightness - target
            } else {
                target - trans.target_brightness
            };
            if d < DEAD_BAND {
                return ;
            }
        }

        let distance = if target >= self.current_brightness {
            target - self.current_brightness
        } else {
            self.current_brightness - target
        };
        if distance < DEAD_BAND {
            return ;
        }

        self.transition = Some(
            TransitionState {
                current_brightness: self.current_brightness,
                initial_brightness: self.current_brightness,
                target_brightness: target,
                start_time_ms: now_ms,
                duration_ms: self.transition_duration_ms,
            },
        );
    }

    /// Start a fast fixed-duration transition used for safety-critical
    /// dimming. Same debounce, dead-band and safe-range rules as
    /// `request_transition`, but the duration is always
    /// `INSTANT_TRANSITION_MS` and the request is honoured in every
    /// mode: under `EmergencyStop` the target is the explicit 0,
    /// which `tick_transition` never emits in that mode.
    pub fn force_instant_transition(&mut self, target: i64, now_ms: u64)
        requires
            old(self).wf(),
        ensures
            final(self).wf(),
            *final(self) == old(self).spec_force_result(target as int, now_ms),
            old(self).mode != SafetyMode::EmergencyStop && old(self).spec_in_safe_range()
                ==> final(self).spec_in_safe_range(),
            final(self).mode == old(self).mode,
            final(self).last_change_time_ms == old(self).last_change_time_ms,
            final(self).current_brightness == old(self).current_brightness,
            final(self).last_user_override == old(self).last_user_override,
            final(self).is_locked == old(self).is_locked,
            final(self).transition_duration_ms == old(self).transition_duration_ms,
            ({
                let t = old(self).spec_transition_target(target as int);
                if old(self).spec_trans_debounced(t) || spec_abs_diff(
                    t,
                    old(self).current_brightness as int,
                ) < DEAD_BAND {
                    final(self).transition == old(self).transition
                } else {
                    final(self).transition matches Some(tr) && tr.current_brightness == old(self).current_brightness && tr.initial_brightness == old(self).current_brightness
                        && tr.target_brightness == t && tr.start_time_ms == now_ms
                        && tr.duration_ms == INSTANT_TRANSITION_MS
                }
            }),
    {
        let target = if self.mode == SafetyMode::EmergencyStop {
            0
        } else {
            let cap = self.get_safety_cap();
            Self::clamp_safe(
                if target <= cap {
                    target
                } else {
                    cap
                },
            )
        };

        if let Some(trans) = &self.transition {
            let d = if trans.target_brightness >= target {
                trans.target_brightness - target
            } else {
                target - trans.target_brightness
            };
            if d < DEAD_BAND {
                return ;
            }
        }

        let distance = if target >= self.current_brightness {
            target - self.current_brightness
        } else {
            self.current_brightness - target
        };
        if distance < DEAD_BAND {
            return ;
        }

        self.transition = Some(
            TransitionState {
                current_brightness: self.current_brightness,
                initial_brightness: self.current_brightness,
                target_brightness: target,
                start_time_ms: now_ms,
                duration_ms: INSTANT_TRANSITION_MS,
            },
        );
    }

    /// The easing numerator at elapsed time `elapsed_ms` of a
    /// transition of `duration_ms`; the covered fraction of the move is
    /// the result divided by `duration_ms * duration_ms`.
    pub fn ease_in_out(elapsed_ms: u64, duration_ms: u64) -> (num: u64)
        requires
            elapsed_ms < duration_ms,
            duration_ms <= MAX_TRANSITION_DURATION_MS,
        ensures
            num == spec_ease_num(elapsed_ms as int, duration_ms as int),
            num <= duration_ms * duration_ms,
    {
        let e = elapsed_ms;
        let d = duration_ms;
        proof {
            assert(d * d <= 4000000) by (nonlinear_arith)
                requires
                    0 <= d <= 2000,
            ;
        }
        if 2 * e <= d {
            assert(2 * e * e <= d * d) by (nonlinear_arith)
                requires
                    2 * e <= d,
                    0 <= e,
            ;
            2 * e * e
        } else {
            let r = d - e;
            assert(2 * r * r <= d * d) by (nonlinear_arith)
                requires
                    2 * r < d,
                    0 <= r,
            ;
            d * d - 2 * r * r
        }
    }

    /// Advance an in-flight transition to time `now_ms`. Under
    /// `EmergencyStop` the transition is cancelled and nothing is
    /// returned. At or past the duration the brightness snaps to the
    /// target exactly and the transition is cleared; before that the
    /// eased intermediate value is returned and becomes current.
    /// From a guard inside the safe range, every value handed back
    /// for the hardware lies in [5%, 100%].
    pub fn tick_transition(&mut self, now_ms: u64) -> (r: Option<i64>)
        requires
            old(self).wf(),
        ensures
            final(self).wf(),
            old(self).spec_in_safe_range() ==> final(self).spec_in_safe_range(),
            old(self).spec_in_safe_range() ==> (r matches Some(v) ==> MIN_SAFE_BRIGHTNESS <= v
                <= MAX_BRIGHTNESS),
            final(self).mode == old(self).mode,
            final(self).last_user_override == old(self).last_user_override,
            final(self).is_locked == old(self).is_locked,
            final(self).transition_duration_ms == old(self).transition_duration_ms,
            old(self).mode == SafetyMode::EmergencyStop ==> r is None && final(self).transition
                is None && final(self).current_brightness == old(self).current_brightness && final(self).last_change_time_ms == old(self).last_change_time_ms,
            old(self).mode != SafetyMode::EmergencyStop && old(self).transition is None ==> *final(self) == *old(self) && r is None,
            old(self).mode != SafetyMode::EmergencyStop ==> (old(self).transition matches Some(tr)
                ==> ({
                let e = spec_elapsed(tr.start_time_ms, now_ms);
                if e >= tr.duration_ms {
                    &&& r == Some(tr.target_brightness)
                    &&& final(self).current_brightness == tr.target_brightness
                    &&& final(self).transition is None
                    &&& final(self).last_change_time_ms == old(self).last_change_time_ms
                } else {
                    &&& (r matches Some(v) && v == spec_eased_value(
                        tr.initial_brightness as int,
                        tr.target_brightness as int,
                        e,
                        tr.duration_ms as int,
                    ) && final(self).current_brightness == v)
                    &&& final(self).transition == old(self).transition
                    &&& final(self).last_change_time_ms == now_ms
                }
            })),
    {
        if self.mode == SafetyMode::EmergencyStop {
            self.transition = None;
            return None;
        }

        if let Some(trans) = self.transition {
            let elapsed = if now_ms >= trans.start_time_ms {
                now_ms - trans.start_time_ms
            } else {
                0
            };

            if elapsed >= trans.duration_ms {
                let final_val = trans.target_brightness;
                self.current_brightness = final_val;
                self.transition = None;
                return Some(final_val);
            }

            let num = Self::ease_in_out(elapsed, trans.duration_ms);
            proof {
                assert(trans.duration_ms * trans.duration_ms <= 4000000) by (nonlinear_arith)
                    requires
                        0 <= trans.duration_ms <= 2000,
                ;
                assert(trans.duration_ms * trans.duration_ms >= 1) by (nonlinear_arith)
                    requires
                        1 <= trans.duration_ms,
                ;
            }
            let den = trans.duration_ms * trans.duration_ms;
            let mag: u64 = if trans.target_brightness >= trans.initial_brightness {
                (trans.target_brightness - trans.initial_brightness) as u64
            } else {
                (trans.initial_brightness - trans.target_brightness) as u64
            };
            proof {
                assert(mag * num <= 100000 * 4000000) by (nonlinear_arith)
                    requires
                        0 <= mag <= 100000,
                        0 <= num <= 4000000,
                ;
            }
            let prod = mag * num;
            let q = prod / den;
            proof {
                lemma_div_pos_is_pos(prod as int, den as int);
                assert(prod <= mag * den) by (nonlinear_arith)
                    requires
                        prod == mag * num,
                        num <= den,
                        0 <= mag,
                ;
                lemma_div_is_ordered(prod as int, (mag * den) as int, den as int);
                lemma_div_multiples_vanish(mag as int, den as int);
                assert((mag * den) as int == (den as int) * (mag as int));
            }
            let qi = q as i64;
            let new_val = if trans.target_brightness >= trans.initial_brightness {
                trans.initial_brightness + qi
            } else {
                trans.initial_brightness - qi
            };

            self.current_brightness = new_val;
            self.last_change_time_ms = now_ms;
            return Some(new_val);
        }
        None
    }
}

/// Law: an applied change freezes direct updates for the minimum safe
/// interval. Right after a change (and for any instant less than
/// `MIN_SAFE_INTERVAL_MS` later) `can_update` is false; once at least
/// the interval has elapsed it is true again in `Automatic` mode.
pub proof fn lemma_frequency_floor(g: EpilepsyGuard, t: u64)
    requires
        t >= g.last_change_time_ms,
    ensures
        t - g.last_change_time_ms < MIN_SAFE_INTERVAL_MS ==> !g.spec_can_update(t),
        g.mode == SafetyMode::Automatic && t - g.last_change_time_ms >= MIN_SAFE_INTERVAL_MS
            ==> g.spec_can_update(t),
{
}

/// Law: at half of an even transition duration the eased value is the
/// arithmetic midpoint of initial and target (the division rounding
/// toward the initial value), strictly between the two.
pub proof fn lemma_ease_midpoint(initial: int, target: int, d: int)
    requires
        0 < d,
        d % 2 == 0,
        spec_abs_diff(initial, target) >= DEAD_BAND,
    ensures
        target > initial ==> spec_eased_value(initial, target, d / 2, d) == initial + (target
            - initial) / 2,
        target < initial ==> spec_eased_value(initial, target, d / 2, d) == initial - (initial
            - target) / 2,
        target > initial ==> initial < spec_eased_value(initial, target, d / 2, d) < target,
        target < initial ==> target < spec_eased_value(initial, target, d / 2, d) < initial,
{
    let e = d / 2;
    vstd::arithmetic::div_mod::lemma_fundamental_div_mod(d, 2);
    assert(2 * e == d);
    let num = spec_ease_num(e, d);
    assert(num == 2 * e * e);
    assert(2 * num == d * d) by (nonlinear_arith)
        requires
            2 * e == d,
            num == 2 * e * e,
    ;
    let mag = spec_abs_diff(initial, target);
    let h = mag / 2;
    let rem = mag % 2;
    vstd::arithmetic::div_mod::lemma_fundamental_div_mod(mag, 2);
    assert(mag == 2 * h + rem);
    assert(mag * num == h * (d * d) + rem * num) by (nonlinear_arith)
        requires
            mag == 2 * h + rem,
            2 * num == d * d,
    ;
    assert(0 < d * d) by (nonlinear_arith)
        requires
            0 < d,
    ;
    assert(num < d * d);
    assert(0 <= rem * num < d * d) by (nonlinear_arith)
        requires
            0 <= rem < 2,
            0 <= num < d * d,
    ;
    lemma_fundamental_div_mod_converse(mag * num, d * d, h, rem * num);
    assert((mag * num) / (d * d) == h);
    vstd::arithmetic::div_mod::lemma_div_decreases(mag, 2);
    assert(h < mag);
    vstd::arithmetic::div_mod::lemma_div_pos_is_pos(mag, 2);
    assert(mag >= DEAD_BAND);
    assert(h >= 50) by {
        lemma_div_is_ordered(100, mag, 2);
    }
}

} // verus!
