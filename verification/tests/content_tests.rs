//! Content analysis: the PPM luminance extraction and the
//! flashbang-protection multiplier policy.

use auto_brightness::content::{analyze_ppm_frame, update_content_multiplier, ContentAnalyzer};

fn frame(header: &str, pixels: &[u8]) -> Vec<u8> {
    let mut data = header.as_bytes().to_vec();
    data.extend_from_slice(pixels);
    data
}

#[test]
fn test_analyze_white_frame() {
    // a fully white 3x2 frame reads as full luminance
    let data = frame("P6 3 2 255\n", &[255u8; 18]);
    assert_eq!(analyze_ppm_frame(&data), Some(1000));
}

#[test]
fn test_analyze_black_frame() {
    let data = frame("P6 3 2 255\n", &[0u8; 18]);
    assert_eq!(analyze_ppm_frame(&data), Some(0));
}

#[test]
fn test_analyze_exact_luma() {
    // one sampled pixel (the stride skips the rest): r=100 g=200 b=50
    // gives (299*100 + 587*200 + 114*50) / 255 = 600 milli
    let mut pixels = vec![0u8; 18];
    pixels[0] = 100;
    pixels[1] = 200;
    pixels[2] = 50;
    let data = frame("P6 3 2 255\n", &pixels);
    assert_eq!(analyze_ppm_frame(&data), Some(600));
}

#[test]
fn test_analyze_header_comment() {
    let data = frame("P6 # a comment\n3 2 255\n", &[255u8; 18]);
    assert_eq!(analyze_ppm_frame(&data), Some(1000));
}

#[test]
fn test_analyze_rejects_malformed() {
    // too short
    assert_eq!(analyze_ppm_frame(b"P6 1 1 255\n"), None);
    // wrong magic
    let data = frame("P5 3 2 255\n", &[255u8; 18]);
    assert_eq!(analyze_ppm_frame(&data), None);
    // zero maximum value
    let data = frame("P6 3 2 0\n", &[255u8; 18]);
    assert_eq!(analyze_ppm_frame(&data), None);
    // missing numbers
    assert_eq!(analyze_ppm_frame(b"P6 what is this header"), None);
}

#[test]
fn test_multiplier_drops_to_floor_at_once() {
    // a fully white sample drives the desired floor to 50 and the
    // multiplier drops there in the same tick, not past it
    let r = update_content_multiplier(1000, Some(1000), true);
    assert_eq!(r, 50);
    // luma 750 gives desired 1000 - 475 = 525
    let r2 = update_content_multiplier(1000, Some(750), true);
    assert_eq!(r2, 525);
}

#[test]
fn test_multiplier_recovers_gently() {
    // dark content: +50 per tick, capped at full
    assert_eq!(update_content_multiplier(900, Some(200), true), 950);
    assert_eq!(update_content_multiplier(980, Some(200), true), 1000);
    assert_eq!(update_content_multiplier(1000, Some(200), true), 1000);
    // hot content met from below: recovery never overshoots the floor
    assert_eq!(update_content_multiplier(50, Some(900), true), 100);
    assert_eq!(update_content_multiplier(230, Some(750), true), 280);
    assert_eq!(update_content_multiplier(510, Some(750), true), 525);
}

#[test]
fn test_multiplier_disabled_and_no_sample() {
    assert_eq!(update_content_multiplier(300, Some(1000), false), 1000);
    assert_eq!(update_content_multiplier(300, None, false), 1000);
    assert_eq!(update_content_multiplier(300, None, true), 300);
}

#[test]
fn test_sampling_cadence() {
    let mut analyzer = ContentAnalyzer::new();
    // a fresh analyzer is due immediately, even at clock zero
    assert!(analyzer.should_sample(0));
    assert!(analyzer.should_sample(5_000));
    analyzer.mark_sampled(5_000);
    assert!(!analyzer.should_sample(5_400));
    assert!(analyzer.should_sample(6_000));
}
