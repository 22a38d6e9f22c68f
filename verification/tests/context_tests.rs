//! Solar context: the elevation-to-brightness mapping, wake-time
//! handling, and sanity of the fixed-point solar position.

use auto_brightness::config::LocationConfig;
use auto_brightness::context::{circadian_target_from_elevation, parse_wake_time, ContextManager, UtcMoment};

fn istanbul() -> ContextManager {
    let config = LocationConfig {
        latitude: Some(41_008_200),
        longitude: Some(28_978_400),
        method: "dummy".to_string(),
        timezone: "Europe/Istanbul".to_string(),
    };
    ContextManager::new(&config, "07:00")
}

#[test]
fn test_circadian_outputs() {
    let ctx = istanbul();

    println!("{:<10} | {:<10} | {:<10}", "Hour (Loc)", "Mins", "Brightness");
    println!("-------------------------------------------");

    let hours_to_test = vec![0, 3, 6, 7, 8, 12, 17, 18, 19, 20, 21, 22, 23];

    for h in hours_to_test {
        // h_local = h_utc + 3
        let h_utc = (h + 24 - 3) % 24;
        let t = UtcMoment { ordinal: 284, hour: h_utc as u8, minute: 17, second: 0 };

        let b = ctx.get_circadian_target(t);
        let mins = h * 60 + 17;

        println!("{:02}:17      | {:<10} | {:.1}", h, mins, b as f64 / 1000.0);
    }
}

#[test]
fn test_curve_boundary_values() {
    // the segment joins meet exactly
    assert_eq!(circadian_target_from_elevation(6_000), 50_000);
    assert_eq!(circadian_target_from_elevation(-6_000), 30_000);
    assert_eq!(circadian_target_from_elevation(-12_000), 20_000);
    // the daylight ramp saturates at 46 degrees
    assert_eq!(circadian_target_from_elevation(46_000), 100_000);
    assert_eq!(circadian_target_from_elevation(90_000), 100_000);
    // one exact mid-segment value: 26 degrees is half the ramp
    assert_eq!(circadian_target_from_elevation(26_000), 75_000);
    // deep night is flat
    assert_eq!(circadian_target_from_elevation(-40_000), 20_000);
}

#[test]
fn test_curve_monotone_and_continuous() {
    let mut prev = circadian_target_from_elevation(-20_000);
    let mut e: i64 = -20_000;
    while e <= 50_000 {
        let v = circadian_target_from_elevation(e);
        assert!(v >= prev);
        prev = v;
        e += 100;
    }
    // no jump bigger than 2 milli-percent per milli-degree
    for e in [-12_000, -6_000, 6_000, 0, 20_000] {
        let lo = circadian_target_from_elevation(e);
        let hi = circadian_target_from_elevation(e + 1);
        assert!(hi - lo <= 2 && hi >= lo);
    }
}

#[test]
fn test_wake_time_parsing() {
    assert_eq!(parse_wake_time("07:00"), Some((7, 0)));
    assert_eq!(parse_wake_time("7:5"), Some((7, 5)));
    assert_eq!(parse_wake_time("23:59"), Some((23, 59)));
    assert_eq!(parse_wake_time("24:00"), None);
    assert_eq!(parse_wake_time("12:60"), None);
    assert_eq!(parse_wake_time("ab"), None);
    assert_eq!(parse_wake_time(""), None);
}

#[test]
fn test_wake_time_defaults_and_updates() {
    let config = LocationConfig {
        latitude: None,
        longitude: None,
        method: "auto".to_string(),
        timezone: "UTC".to_string(),
    };
    let mut ctx = ContextManager::new(&config, "not a time");
    assert_eq!(ctx.get_wake_time(), (7, 0));
    ctx.set_wake_time(8, 30);
    assert_eq!(ctx.get_wake_time(), (8, 30));
    // invalid pairs are ignored
    ctx.set_wake_time(24, 0);
    assert_eq!(ctx.get_wake_time(), (8, 30));
    ctx.set_wake_time(0, 60);
    assert_eq!(ctx.get_wake_time(), (8, 30));
}

#[test]
fn test_solar_elevation_day_and_night() {
    let ctx = istanbul();
    // around the June solstice, noon in Istanbul (UTC+3) stands high
    let noon = UtcMoment { ordinal: 172, hour: 9, minute: 0, second: 0 };
    let e_noon = ctx.calculate_solar_elevation(noon);
    assert!(e_noon > 50_000, "noon elevation was {}", e_noon);

    // and local midnight is far below the horizon
    let midnight = UtcMoment { ordinal: 172, hour: 21, minute: 0, second: 0 };
    let e_night = ctx.calculate_solar_elevation(midnight);
    assert!(e_night < -5_000, "midnight elevation was {}", e_night);
}

#[test]
fn test_sleep_brightness_before_wake() {
    let ctx = istanbul();
    // 01:17 UTC is 04:17 local, before the 07:00 wake time
    let small_hours = UtcMoment { ordinal: 284, hour: 1, minute: 17, second: 0 };
    assert_eq!(ctx.get_circadian_target(small_hours), 10_000);
}
