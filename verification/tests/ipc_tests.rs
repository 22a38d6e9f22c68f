//! The command protocol dispatch: each command's effect on the
//! engine and the snapshot it asks to persist.

use auto_brightness::config::LocationConfig;
use auto_brightness::context::{ContextManager, UtcMoment};
use auto_brightness::epilepsy::{EpilepsyGuard, SafetyMode};
use auto_brightness::ipc::{format_hhmm, handle_command, IpcCommand, IpcResponse};

fn setup() -> (EpilepsyGuard, ContextManager, bool) {
    let config = LocationConfig {
        latitude: Some(41_008_200),
        longitude: Some(28_978_400),
        method: "dummy".to_string(),
        timezone: "Europe/Istanbul".to_string(),
    };
    (
        EpilepsyGuard::new(50_000, 0),
        ContextManager::new(&config, "07:00"),
        true,
    )
}

fn noon() -> UtcMoment {
    UtcMoment { ordinal: 172, hour: 9, minute: 0, second: 0 }
}

#[test]
fn test_set_brightness_command() {
    let (mut guard, mut ctx, mut fb) = setup();
    let (resp, save) = handle_command(
        IpcCommand::SetBrightness(80_000),
        &mut guard,
        &mut ctx,
        &mut fb,
        1_000,
        noon(),
        2_000,
        55_000,
    );
    assert_eq!(resp, IpcResponse::Done);
    assert_eq!(guard.last_user_override, Some(2_000));
    let tr = guard.transition.expect("a transition should start");
    assert_eq!(tr.target_brightness, 80_000);
    let st = save.expect("a snapshot should be persisted");
    assert_eq!(st.brightness, 80_000);
    assert_eq!(st.wake_time, Some((7, 0)));
    assert_eq!(st.transition_duration_ms, 750);
    assert!(st.flashbang_protection);
    assert_eq!(st.last_updated_ms, 55_000);
}

#[test]
fn test_set_brightness_clamps_into_domain() {
    let (mut guard, mut ctx, mut fb) = setup();
    let (_, save) = handle_command(
        IpcCommand::SetBrightness(250_000),
        &mut guard,
        &mut ctx,
        &mut fb,
        1_000,
        noon(),
        2_000,
        0,
    );
    assert_eq!(save.unwrap().brightness, 100_000);
    assert_eq!(guard.transition.unwrap().target_brightness, 100_000);
}

#[test]
fn test_set_wake_time_command() {
    let (mut guard, mut ctx, mut fb) = setup();
    let (resp, save) = handle_command(
        IpcCommand::SetWakeTime(6, 45),
        &mut guard,
        &mut ctx,
        &mut fb,
        1_000,
        noon(),
        2_000,
        1,
    );
    assert_eq!(resp, IpcResponse::Done);
    assert_eq!(ctx.get_wake_time(), (6, 45));
    assert_eq!(save.unwrap().wake_time, Some((6, 45)));

    // an out-of-range pair is persisted as given but not applied
    let (_, save2) = handle_command(
        IpcCommand::SetWakeTime(25, 0),
        &mut guard,
        &mut ctx,
        &mut fb,
        1_000,
        noon(),
        2_000,
        2,
    );
    assert_eq!(ctx.get_wake_time(), (6, 45));
    assert_eq!(save2.unwrap().wake_time, Some((25, 0)));
}

#[test]
fn test_set_transition_duration_command() {
    let (mut guard, mut ctx, mut fb) = setup();
    let (_, save) = handle_command(
        IpcCommand::SetTransitionDuration(5_000),
        &mut guard,
        &mut ctx,
        &mut fb,
        1_000,
        noon(),
        2_000,
        3,
    );
    // the guard clamps into its safe range; the snapshot keeps the
    // requested value
    assert_eq!(guard.transition_duration_ms, 2_000);
    assert_eq!(save.unwrap().transition_duration_ms, 5_000);
}

#[test]
fn test_set_flashbang_protection_command() {
    let (mut guard, mut ctx, mut fb) = setup();
    let (_, save) = handle_command(
        IpcCommand::SetFlashbangProtection(false),
        &mut guard,
        &mut ctx,
        &mut fb,
        1_000,
        noon(),
        2_000,
        4,
    );
    assert!(!fb);
    assert!(!save.unwrap().flashbang_protection);
}

#[test]
fn test_freeze_command() {
    let (mut guard, mut ctx, mut fb) = setup();
    let (resp, save) = handle_command(
        IpcCommand::Freeze(300),
        &mut guard,
        &mut ctx,
        &mut fb,
        1_000,
        noon(),
        2_000,
        5,
    );
    assert_eq!(resp, IpcResponse::Done);
    assert_eq!(guard.mode, SafetyMode::EmergencyStop);
    assert!(save.is_none());
}

#[test]
fn test_reset_auto_command() {
    let (mut guard, mut ctx, mut fb) = setup();
    guard.set_user_override(1_500);
    let (resp, save) = handle_command(
        IpcCommand::ResetAuto,
        &mut guard,
        &mut ctx,
        &mut fb,
        800,
        noon(),
        2_000,
        6,
    );
    assert_eq!(resp, IpcResponse::Done);
    assert!(save.is_none());
    assert_eq!(guard.last_user_override, None);
    assert_eq!(guard.mode, SafetyMode::Automatic);
    let tr = guard.transition.expect("an instant transition should start");
    assert_eq!(tr.duration_ms, 200);
    // noon circadian target 100% dimmed by 0.8 weather
    assert_eq!(tr.target_brightness, 80_000);
}

#[test]
fn test_reset_auto_leaves_emergency_stop() {
    // the explicit reset is the one way back to Automatic
    let (mut guard, mut ctx, mut fb) = setup();
    let _ = handle_command(
        IpcCommand::Freeze(300),
        &mut guard,
        &mut ctx,
        &mut fb,
        1_000,
        noon(),
        2_000,
        8,
    );
    assert_eq!(guard.mode, SafetyMode::EmergencyStop);

    let (resp, _) = handle_command(
        IpcCommand::ResetAuto,
        &mut guard,
        &mut ctx,
        &mut fb,
        1_000,
        noon(),
        2_500,
        9,
    );
    assert_eq!(resp, IpcResponse::Done);
    assert_eq!(guard.mode, SafetyMode::Automatic);
    // automatic control resumes toward the circadian target
    let tr = guard.transition.expect("an instant transition should start");
    assert_eq!(tr.duration_ms, 200);
    assert_eq!(tr.target_brightness, 100_000);
}

#[test]
fn test_get_info_command() {
    let (mut guard, mut ctx, mut fb) = setup();
    let (resp, save) = handle_command(
        IpcCommand::GetInfo,
        &mut guard,
        &mut ctx,
        &mut fb,
        1_000,
        noon(),
        2_000,
        7,
    );
    assert!(save.is_none());
    match resp {
        IpcResponse::Status {
            brightness,
            location,
            wake_time,
            transition_duration_ms,
            flashbang_protection,
        } => {
            assert_eq!(brightness, 50_000);
            assert_eq!(location, "Automatic");
            assert_eq!(wake_time, "07:00");
            assert_eq!(transition_duration_ms, 750);
            assert!(flashbang_protection);
        }
        other => panic!("unexpected response: {:?}", other),
    }
}

#[test]
fn test_format_hhmm_padding() {
    assert_eq!(format_hhmm(7, 0), "07:00");
    assert_eq!(format_hhmm(23, 59), "23:59");
    assert_eq!(format_hhmm(0, 5), "00:05");
}
