//! The command protocol: what external front ends may ask of the
//! engine, and the verified dispatch that applies a command to the
//! engine's state. The byte transport lives with the caller.

use vstd::prelude::*;
use vstd::string::StringExecFns;

use crate::context::{ContextManager, UtcMoment};
use crate::epilepsy::{EpilepsyGuard, SafetyMode};
use crate::fusion::FACTOR_NEUTRAL_BAND;
use crate::state::AppState;

verus! {

/// A request from a front end. Brightness is milli-percent.
#[derive(Debug, Clone, Copy, PartialEq, Eq, Structural)]
pub enum IpcCommand {
    SetBrightness(i64),
    SetWakeTime(u8, u8),
    SetTransitionDuration(u64),
    SetFlashbangProtection(bool),
    GetInfo,
    Freeze(u64),
    ResetAuto,
    Heartbeat,
}

/// The reply to a request.
#[derive(Debug, Clone, PartialEq, Eq)]
pub enum IpcResponse {
    Done,
    Status {
        brightness: i64,
        location: String,
        wake_time: String,
        transition_duration_ms: u64,
        flashbang_protection: bool,
    },
    Error(String),
}

/// The wake time written as two zero-padded digit pairs with a colon
/// between them.
pub open spec fn spec_hhmm(h: u8, m: u8) -> Seq<char> {
    seq![
        ((48 + h / 10) as u8) as char,
        ((48 + h % 10) as u8) as char,
        58u8 as char,
        ((48 + m / 10) as u8) as char,
        ((48 + m % 10) as u8) as char,
    ]
}

fn digit_str(d: u8) -> (r: &'static str)
    requires
        d <= 9,
    ensures
        r@ =~= seq![((48 + d) as u8) as char],
{
    proof {
        reveal_strlit("0");
        reveal_strlit("1");
        reveal_strlit("2");
        reveal_strlit("3");
        reveal_strlit("4");
        reveal_strlit("5");
        reveal_strlit("6");
        reveal_strlit("7");
        reveal_strlit("8");
        reveal_strlit("9");
    }
    match d {
        0 => "0",
        1 => "1",
        2 => "2",
        3 => "3",
        4 => "4",
        5 => "5",
        6 => "6",
        7 => "7",
        8 => "8",
        _ => "9",
    }
}

/// Render a wake time for the status reply.
pub fn format_hhmm(h: u8, m: u8) -> (r: String)
    requires
        h <= 23,
        m <= 59,
    ensures
        r@ == spec_hhmm(h, m),
{
    proof {
        reveal_strlit(":");
        vstd::arithmetic::div_mod::lemma_div_is_ordered(h as int, 23, 10);
        vstd::arithmetic::div_mod::lemma_div_pos_is_pos(h as int, 10);
        vstd::arithmetic::div_mod::lemma_mod_division_less_than_divisor(h as int, 10);
        vstd::arithmetic::div_mod::lemma_div_is_ordered(m as int, 59, 10);
        vstd::arithmetic::div_mod::lemma_div_pos_is_pos(m as int, 10);
        vstd::arithmetic::div_mod::lemma_mod_division_less_than_divisor(m as int, 10);
    }
    let mut s = String::new();
    s.append(digit_str(h / 10));
    s.append(digit_str(h % 10));
    s.append(":");
    s.append(digit_str(m / 10));
    s.append(digit_str(m % 10));
    proof {
        assert(s@ =~= spec_hhmm(h, m));
    }
    s
}

/// Clamp a requested brightness into the protocol's domain.
pub open spec fn spec_clamp_brightness(v: int) -> int {
    if v < 0 {
        0
    } else if v > 100000 {
        100000
    } else {
        v
    }
}

/// The record a command asks to persist: the engine's current
/// user-visible settings plus the wall-clock write time.
pub open spec fn spec_snapshot(
    brightness: int,
    wake: (u8, u8),
    duration: u64,
    flashbang: bool,
    unix_now_ms: u64,
) -> AppState {
    AppState {
        brightness: brightness as i64,
        wake_time: Some(wake),
        transition_duration_ms: duration,
        flashbang_protection: flashbang,
        last_updated_ms: unix_now_ms,
    }
}

/// Apply one protocol command to the engine. Mutating commands hand
/// back the snapshot to persist; queries leave everything unchanged
/// and report the current settings. The explicit reset returns the
/// mode to `Automatic`: it is the only way out of `EmergencyStop`.
#[verifier::rlimit(30)]
pub fn handle_command(
    cmd: IpcCommand,
    guard: &mut EpilepsyGuard,
    ctx: &mut ContextManager,
    flashbang_enabled: &mut bool,
    weather: i64,
    t: UtcMoment,
    now_ms: u64,
    unix_now_ms: u64,
) -> (r: (IpcResponse, Option<AppState>))
    requires
        old(guard).wf(),
        old(ctx).wf(),
        t.wf(),
        1 <= weather <= 1000,
    ensures
        final(guard).wf(),
        final(ctx).wf(),
        old(guard).spec_in_safe_range() ==> final(guard).spec_in_safe_range(),
        cmd matches IpcCommand::SetBrightness(v) ==> ({
            let vv = spec_clamp_brightness(v as int);
            &&& *final(guard) == old(guard).spec_with_override(now_ms).spec_request_result(
                vv,
                now_ms,
            )
            &&& *final(ctx) == *old(ctx)
            &&& *final(flashbang_enabled) == *old(flashbang_enabled)
            &&& r.0 == IpcResponse::Done
            &&& r.1 == Some(
                spec_snapshot(
                    vv,
                    (old(ctx).wake_hour, old(ctx).wake_minute),
                    old(guard).transition_duration_ms,
                    *old(flashbang_enabled),
                    unix_now_ms,
                ),
            )
        }),
        cmd matches IpcCommand::SetWakeTime(h, m) ==> ({
            &&& *final(guard) == *old(guard)
            &&& *final(flashbang_enabled) == *old(flashbang_enabled)
            &&& final(ctx).lat_udeg == old(ctx).lat_udeg && final(ctx).lon_udeg == old(ctx).lon_udeg
            &&& (h <= 23 && m <= 59 ==> final(ctx).wake_hour == h && final(ctx).wake_minute == m)
            &&& (!(h <= 23 && m <= 59) ==> final(ctx).wake_hour == old(ctx).wake_hour && final(ctx).wake_minute == old(ctx).wake_minute)
            &&& r.0 == IpcResponse::Done
            &&& r.1 == Some(
                (AppState {
                    brightness: old(guard).current_brightness,
                    wake_time: Some((h, m)),
                    transition_duration_ms: old(guard).transition_duration_ms,
                    flashbang_protection: *old(flashbang_enabled),
                    last_updated_ms: unix_now_ms,
                }),
            )
        }),
        cmd matches IpcCommand::SetTransitionDuration(ms) ==> ({
            &&& final(guard).transition_duration_ms == if ms
                < crate::epilepsy::MIN_TRANSITION_DURATION_MS {
                crate::epilepsy::MIN_TRANSITION_DURATION_MS as int
            } else if ms > crate::epilepsy::MAX_TRANSITION_DURATION_MS {
                crate::epilepsy::MAX_TRANSITION_DURATION_MS as int
            } else {
                ms as int
            }
            &&& final(guard).current_brightness == old(guard).current_brightness
            &&& final(guard).mode == old(guard).mode
            &&& final(guard).transition == old(guard).transition
            &&& *final(ctx) == *old(ctx)
            &&& *final(flashbang_enabled) == *old(flashbang_enabled)
            &&& r.0 == IpcResponse::Done
            &&& r.1 == Some(
                (AppState {
                    brightness: old(guard).current_brightness,
                    wake_time: Some((old(ctx).wake_hour, old(ctx).wake_minute)),
                    transition_duration_ms: ms,
                    flashbang_protection: *old(flashbang_enabled),
                    last_updated_ms: unix_now_ms,
                }),
            )
        }),
        cmd matches IpcCommand::SetFlashbangProtection(enabled) ==> ({
            &&& *final(guard) == *old(guard)
            &&& *final(ctx) == *old(ctx)
            &&& *final(flashbang_enabled) == enabled
            &&& r.0 == IpcResponse::Done
            &&& r.1 == Some(
                (AppState {
                    brightness: old(guard).current_brightness,
                    wake_time: Some((old(ctx).wake_hour, old(ctx).wake_minute)),
                    transition_duration_ms: old(guard).transition_duration_ms,
                    flashbang_protection: enabled,
                    last_updated_ms: unix_now_ms,
                }),
            )
        }),
        cmd matches IpcCommand::Freeze(_) ==> ({
            &&& *final(guard) == (EpilepsyGuard {
                mode: SafetyMode::EmergencyStop,
                ..*old(guard)
            })
            &&& *final(ctx) == *old(ctx)
            &&& *final(flashbang_enabled) == *old(flashbang_enabled)
            &&& r.0 == IpcResponse::Done
            &&& r.1 is None
        }),
        cmd matches IpcCommand::ResetAuto ==> ({
            let cleared = EpilepsyGuard {
                mode: SafetyMode::Automatic,
                last_user_override: None,
                ..*old(guard)
            };
            let circ = old(ctx).spec_circadian_target(t);
            let target = if weather < FACTOR_NEUTRAL_BAND {
                (circ * weather) / 1000
            } else {
                circ
            };
            &&& *final(guard) == cleared.spec_force_result(target, now_ms)
            &&& final(guard).mode == SafetyMode::Automatic
            &&& *final(ctx) == *old(ctx)
            &&& *final(flashbang_enabled) == *old(flashbang_enabled)
            &&& r.0 == IpcResponse::Done
            &&& r.1 is None
        }),
        (cmd == IpcCommand::GetInfo || cmd == IpcCommand::Heartbeat) ==> ({
            &&& *final(guard) == *old(guard)
            &&& *final(ctx) == *old(ctx)
            &&& *final(flashbang_enabled) == *old(flashbang_enabled)
            &&& r.1 is None
            &&& (r.0 matches IpcResponse::Status {
                brightness,
                location,
                wake_time,
                transition_duration_ms,
                flashbang_protection,
            } && brightness == old(guard).current_brightness && location@ == "Automatic"@
                && wake_time@ == spec_hhmm(old(ctx).wake_hour, old(ctx).wake_minute)
                && transition_duration_ms == old(guard).transition_duration_ms
                && flashbang_protection == *old(flashbang_enabled))
        }),
{
    match cmd {
        IpcCommand::SetBrightness(v) => {
            let vv = if v < 0 {
                0
            } else if v > 100000 {
                100000
            } else {
                v
            };
            let wt = ctx.get_wake_time();
            let snapshot = AppState {
                brightness: vv,
                wake_time: Some(wt),
                transition_duration_ms: guard.transition_duration_ms,
                flashbang_protection: *flashbang_enabled,
                last_updated_ms: unix_now_ms,
            };
            guard.set_user_override(now_ms);
            guard.request_transition(vv, now_ms);
            (IpcResponse::Done, Some(snapshot))
        },
        IpcCommand::SetWakeTime(h, m) => {
            let snapshot = AppState {
                brightness: guard.current_brightness,
                wake_time: Some((h, m)),
                transition_duration_ms: guard.transition_duration_ms,
                flashbang_protection: *flashbang_enabled,
                last_updated_ms: unix_now_ms,
            };
            ctx.set_wake_time(h, m);
            (IpcResponse::Done, Some(snapshot))
        },
        IpcCommand::SetTransitionDuration(ms) => {
            let wt = ctx.get_wake_time();
            let snapshot = AppState {
                brightness: guard.current_brightness,
                wake_time: Some(wt),
                transition_duration_ms: ms,
                flashbang_protection: *flashbang_enabled,
                last_updated_ms: unix_now_ms,
            };
            guard.set_transition_duration(ms);
            (IpcResponse::Done, Some(snapshot))
        },
        IpcCommand::SetFlashbangProtection(enabled) => {
            *flashbang_enabled = enabled;
            let wt = ctx.get_wake_time();
            let snapshot = AppState {
                brightness: guard.current_brightness,
                wake_time: Some(wt),
                transition_duration_ms: guard.transition_duration_ms,
                flashbang_protection: enabled,
                last_updated_ms: unix_now_ms,
            };
            (IpcResponse::Done, Some(snapshot))
        },
        IpcCommand::Freeze(_) => {
            guard.mode = SafetyMode::EmergencyStop;
            (IpcResponse::Done, None)
        },
        IpcCommand::ResetAuto => {
            // the explicit reset is the one way out of EmergencyStop
            guard.mode = SafetyMode::Automatic;
            guard.last_user_override = None;
            let circ = ctx.get_circadian_target(t);
            let target = if weather < FACTOR_NEUTRAL_BAND {
                crate::fusion::compose_fused_target(circ, weather, 1000, false)
            } else {
                circ
            };
            guard.force_instant_transition(target, now_ms);
            (IpcResponse::Done, None)
        },
        IpcCommand::GetInfo | IpcCommand::Heartbeat => {
            let (h, m) = ctx.get_wake_time();
            let status = IpcResponse::Status {
                brightness: guard.current_brightness,
                location: String::from_str("Automatic"),
                wake_time: format_hhmm(h, m),
                transition_duration_ms: guard.transition_duration_ms,
                flashbang_protection: *flashbang_enabled,
            };
            (status, None)
        },
    }
}

} // verus!
