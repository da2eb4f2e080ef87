use input_automation::percentage::Percentage;
use input_automation::screen_compare::{compare_frames, compare_screenshot, CompareError, Frame, MatchCount};
use std::io::Cursor;

fn solid(width: u32, height: u32, pixel: [u8; 4]) -> Frame {
    let mut rgba = Vec::new();
    for _ in 0..(width * height) {
        rgba.extend_from_slice(&pixel);
    }
    Frame { width, height, rgba }
}

fn png_of(frame: &Frame) -> Vec<u8> {
    let image = image::RgbaImage::from_raw(frame.width, frame.height, frame.rgba.clone()).unwrap();
    let mut bytes: Vec<u8> = Vec::new();
    image.write_to(&mut Cursor::new(&mut bytes), image::ImageOutputFormat::Png).unwrap();
    bytes
}

#[test]
fn identical_frames_match_fully() {
    let a = solid(3, 2, [10, 20, 30, 255]);
    let r = compare_frames(&a, &a.clone(), 3, 2);
    assert_eq!(r, MatchCount { matching: 6, total: 6 });
}

#[test]
fn one_differing_channel_breaks_full_match() {
    let a = solid(2, 2, [1, 2, 3, 4]);
    let mut b = a.clone();
    b.rgba[4 * 3 + 3] = 5; // alpha of the last pixel
    let r = compare_frames(&a, &b, 2, 2);
    assert_eq!(r, MatchCount { matching: 3, total: 4 });
    b.rgba[0] = 0; // red of the first pixel
    assert_eq!(compare_frames(&a, &b, 2, 2).matching, 2);
}

#[test]
fn dimension_mismatch_matches_nothing() {
    let reference = solid(2, 3, [7, 7, 7, 7]);
    let captured = solid(3, 2, [7, 7, 7, 7]);
    let r = compare_frames(&reference, &captured, 3, 2);
    assert_eq!(r, MatchCount { matching: 0, total: 6 });
}

#[test]
fn empty_region_has_no_pixels() {
    let a = solid(0, 5, [0, 0, 0, 0]);
    assert_eq!(compare_frames(&a, &a.clone(), 0, 5), MatchCount { matching: 0, total: 0 });
}

#[test]
fn screenshot_comparison_decodes_both_images() {
    let reference = solid(4, 4, [200, 100, 50, 255]);
    let mut captured = reference.clone();
    for i in 0..4 {
        captured.rgba[4 * i] = 0;
    }
    let r = compare_screenshot(&png_of(&reference), &png_of(&captured), 4, 4);
    assert_eq!(r, Ok(MatchCount { matching: 12, total: 16 }));
}

#[test]
fn screenshot_against_reference_of_other_size() {
    let reference = solid(2, 2, [1, 1, 1, 255]);
    let captured = solid(4, 1, [1, 1, 1, 255]);
    let r = compare_screenshot(&png_of(&reference), &png_of(&captured), 4, 1);
    assert_eq!(r, Ok(MatchCount { matching: 0, total: 4 }));
}

#[test]
fn screenshot_errors() {
    let good = png_of(&solid(2, 2, [9, 9, 9, 255]));
    let garbage: Vec<u8> = vec![1, 2, 3, 4, 5];
    assert_eq!(compare_screenshot(&garbage, &good, 2, 2), Err(CompareError::UnreadableReference));
    assert_eq!(compare_screenshot(&good, &garbage, 2, 2), Err(CompareError::UnreadableCapture));
    assert_eq!(compare_screenshot(&good, &good, 2, 3), Err(CompareError::CaptureSizeMismatch));
}

fn pct(negative: bool, mantissa: u64, scale: usize) -> Percentage {
    Percentage { negative, mantissa, scale }
}

#[test]
fn threshold_is_compared_exactly() {
    // 40% of 40 pixels is 16.
    assert!(pct(false, 40, 0).is_met_by(16, 40));
    assert!(!pct(false, 40, 0).is_met_by(15, 40));
    // 40.5% of 200 pixels is 81.
    assert!(pct(false, 405, 1).is_met_by(81, 200));
    assert!(!pct(false, 405, 1).is_met_by(80, 200));
    assert!(pct(false, 100, 0).is_met_by(7, 7));
    assert!(!pct(false, 100, 0).is_met_by(6, 7));
    assert!(!pct(false, 1001, 1).is_met_by(7, 7));
}

#[test]
fn threshold_edge_values() {
    assert!(pct(false, 0, 0).is_met_by(0, 10));
    assert!(pct(true, 5, 0).is_met_by(0, 10));
    assert!(pct(true, 5, 0).is_met_by(0, 0));
    assert!(!pct(false, 1, 30).is_met_by(0, 0));
    // A tiny positive threshold with a long scale.
    assert!(pct(false, 1, 60).is_met_by(1, u64::MAX));
    assert!(!pct(false, 1, 60).is_met_by(0, u64::MAX));
    // u64::MAX / 10^18 is about 18.4%, u64::MAX / 10^17 about 184%.
    assert!(pct(false, u64::MAX, 18).is_met_by(u64::MAX, u64::MAX));
    assert!(!pct(false, u64::MAX, 17).is_met_by(u64::MAX, u64::MAX));
    assert!(pct(false, u64::MAX, 18).is_met_by(u64::MAX / 5, u64::MAX));
}
