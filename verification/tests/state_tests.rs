//! The persisted snapshot: canonical bytes, round trip, and the
//! defaults on anything unreadable.

use auto_brightness::state::{
    default_flashbang, default_transition_duration, encode_state, parse_state, AppState,
};

fn sample() -> AppState {
    AppState {
        brightness: 50_000,
        wake_time: Some((7, 0)),
        transition_duration_ms: 750,
        flashbang_protection: true,
        last_updated_ms: 123,
    }
}

#[test]
fn test_encode_canonical_bytes() {
    let bytes = encode_state(&sample());
    let text = String::from_utf8(bytes).expect("encoding is ASCII");
    assert_eq!(
        text,
        "{\"brightness\":50.000,\"wake_time\":[7,0],\"transition_duration_ms\":750,\"flashbang_protection\":true,\"last_updated\":123}"
    );
}

#[test]
fn test_roundtrip_with_wake_time() {
    let s = sample();
    let parsed = parse_state(&encode_state(&s));
    assert_eq!(parsed, s);
}

#[test]
fn test_roundtrip_without_wake_time() {
    let s = AppState {
        brightness: 12_345,
        wake_time: None,
        transition_duration_ms: 2_000,
        flashbang_protection: false,
        last_updated_ms: 9_999_999_999,
    };
    let parsed = parse_state(&encode_state(&s));
    assert_eq!(parsed, s);
}

#[test]
fn test_parse_tolerates_whitespace() {
    let text = "{ \"brightness\" : 15.500 ,\n \"wake_time\" : [ 6 , 45 ] ,\n \"transition_duration_ms\" : 500 ,\n \"flashbang_protection\" : false ,\n \"last_updated\" : 7 }";
    let parsed = parse_state(text.as_bytes());
    assert_eq!(parsed.brightness, 15_500);
    assert_eq!(parsed.wake_time, Some((6, 45)));
    assert_eq!(parsed.transition_duration_ms, 500);
    assert!(!parsed.flashbang_protection);
    assert_eq!(parsed.last_updated_ms, 7);
}

#[test]
fn test_parse_integer_brightness() {
    let text = "{\"brightness\":42,\"wake_time\":null,\"transition_duration_ms\":750,\"flashbang_protection\":true,\"last_updated\":0}";
    let parsed = parse_state(text.as_bytes());
    assert_eq!(parsed.brightness, 42_000);
    assert_eq!(parsed.wake_time, None);
}

#[test]
fn test_corrupt_input_yields_defaults() {
    let defaults = AppState::default();
    assert_eq!(parse_state(b""), defaults);
    assert_eq!(parse_state(b"not json at all"), defaults);
    assert_eq!(parse_state(b"{\"brightness\":}"), defaults);
    assert_eq!(parse_state(b"{\"brightness\":50.000"), defaults);
    // trailing garbage after the object is rejected too
    let mut ok = encode_state(&sample());
    ok.extend_from_slice(b"x");
    assert_eq!(parse_state(&ok), defaults);
}

#[test]
fn test_documented_defaults() {
    let d = AppState::default();
    assert_eq!(d.brightness, 15_000);
    assert_eq!(d.wake_time, None);
    assert_eq!(d.transition_duration_ms, 750);
    assert!(d.flashbang_protection);
    assert_eq!(default_transition_duration(), 750);
    assert!(default_flashbang());
}
