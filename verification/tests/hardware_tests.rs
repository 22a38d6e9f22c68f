//! Backend conversions: reading the DDC tool's output and scaling
//! between raw backlight units and milli-percent.

use auto_brightness::hardware::{
    backlight_raw_to_percent, parse_vcp_brightness, percent_to_backlight_raw, round_percent,
    DdcUtilController, HardwareError,
};

#[test]
fn test_parse_vcp_output() {
    assert_eq!(parse_vcp_brightness(b"VCP 10 C 50 100"), Some(50_000));
    assert_eq!(parse_vcp_brightness(b"VCP 10 C 7 100\n"), Some(7_000));
    assert_eq!(parse_vcp_brightness(b"  VCP   10  C  100  100"), Some(100_000));
}

#[test]
fn test_parse_vcp_rejects_bad_output() {
    assert_eq!(parse_vcp_brightness(b""), None);
    assert_eq!(parse_vcp_brightness(b"VCP 10 C"), None);
    assert_eq!(parse_vcp_brightness(b"VCP 10 C x50 100"), None);
    assert_eq!(parse_vcp_brightness(b"VCP 10 C 18446744073709551616 100"), None);
}

#[test]
fn test_backlight_scaling() {
    assert_eq!(backlight_raw_to_percent(50, 100), 50_000);
    assert_eq!(backlight_raw_to_percent(0, 7500), 0);
    assert_eq!(backlight_raw_to_percent(7500, 7500), 100_000);
    assert_eq!(backlight_raw_to_percent(1, 3), 33_333);

    assert_eq!(percent_to_backlight_raw(50_000, 255), 128);
    assert_eq!(percent_to_backlight_raw(0, 255), 0);
    assert_eq!(percent_to_backlight_raw(100_000, 255), 255);
    // out-of-range requests are clamped before scaling
    assert_eq!(percent_to_backlight_raw(150_000, 100), 100);
    assert_eq!(percent_to_backlight_raw(-5, 100), 0);
}

#[test]
fn test_round_percent() {
    assert_eq!(round_percent(49_499), 49);
    assert_eq!(round_percent(49_500), 50);
    assert_eq!(round_percent(0), 0);
    assert_eq!(round_percent(100_000), 100);
}

#[test]
fn test_controller_and_errors() {
    let c = DdcUtilController::new(1);
    assert_eq!(c.display_id, 1);

    assert_eq!(HardwareError::NotSupported.message(), "Not supported");
    assert_eq!(HardwareError::OutOfRange.message(), "Value out of range");
    assert_eq!(
        HardwareError::Io("no device".to_string()).message(),
        "IO Error: no device"
    );
    assert_eq!(
        HardwareError::CommandFailed("exit 1".to_string()).message(),
        "Command failed: exit 1"
    );
}
