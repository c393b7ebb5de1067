use cat_fax::color::{wave_value, ColorControl, HUE_STEPS, PARAM_MAX};

fn control(seed: u64, spread: u64, frequency: u64) -> ColorControl {
    ColorControl::new(seed, spread, frequency, false, false, true)
}

#[test]
fn color_function_is_deterministic() {
    let c = control(250, 3000, 100);
    for row in 0..4u64 {
        for col in 0..40u64 {
            let a = c.rainbow_at(row, col);
            let b = c.rainbow_at(row, col);
            assert_eq!(a, b);
        }
    }
}

#[test]
fn channels_never_all_equal() {
    // Sample a full hue period and check the channels stay visibly apart:
    // at every sampled position one channel is saturated and one is dark.
    let c = control(0, 1000, 7);
    for col in 0..2000u64 {
        let rgb = c.rainbow_at(0, col);
        let hi = rgb.r.max(rgb.g).max(rgb.b);
        let lo = rgb.r.min(rgb.g).min(rgb.b);
        assert_eq!(hi, 255);
        assert_eq!(lo, 0);
        assert!(!(rgb.r == rgb.g && rgb.g == rgb.b));
    }
}

#[test]
fn channel_spread_is_wide_over_a_period() {
    // The per-position channel spread (max minus min, always 255 here)
    // clears any visibility threshold for the whole sampled period.
    let c = control(0, 1000, 7);
    let mut wide = 0usize;
    let samples = 512usize;
    for col in 0..samples {
        let rgb = c.rainbow_at(0, col as u64);
        let hi = rgb.r.max(rgb.g).max(rgb.b);
        let lo = rgb.r.min(rgb.g).min(rgb.b);
        if hi - lo > 60 {
            wide += 1;
        }
    }
    assert_eq!(wide, samples);
}

#[test]
fn different_seeds_give_different_sequences() {
    let a = control(0, 3000, 100);
    let b = control(500, 3000, 100);
    let mut differs = false;
    for col in 0..32u64 {
        if a.rainbow_at(0, col) != b.rainbow_at(0, col) {
            differs = true;
        }
    }
    assert!(differs);
}

#[test]
fn hue_advances_along_a_row_and_between_rows() {
    let c = control(0, 1000, 300);
    // Column movement dominates within a line...
    assert_ne!(c.rainbow_at(0, 0), c.rainbow_at(0, 2));
    // ...and row movement shifts the pattern between lines.
    assert_ne!(c.rainbow_at(0, 0), c.rainbow_at(1, 0));
}

#[test]
fn zero_parameters_are_clamped_not_fatal() {
    let c = ColorControl::new(0, 0, 0, false, false, true);
    assert_eq!(c.spread, 1);
    assert_eq!(c.frequency, 1);
    // The color function still runs on the clamped control.
    let _ = c.rainbow_at(0, 0);
    let big = ColorControl::new(0, u64::MAX, u64::MAX, false, false, true);
    assert_eq!(big.spread, PARAM_MAX);
    assert_eq!(big.frequency, PARAM_MAX);
}

#[test]
fn wave_shape_matches_the_trapezoid() {
    assert_eq!(wave_value(0), 255);
    assert_eq!(wave_value(255), 255);
    assert_eq!(wave_value(256), 255);
    assert_eq!(wave_value(384), 127);
    assert_eq!(wave_value(511), 0);
    assert_eq!(wave_value(512), 0);
    assert_eq!(wave_value(1023), 0);
    assert_eq!(wave_value(1024), 0);
    assert_eq!(wave_value(1152), 128);
    assert_eq!(wave_value(1279), 255);
    assert_eq!(wave_value(1280), 255);
    assert_eq!(wave_value(HUE_STEPS - 1), 255);
}

#[test]
fn new_control_starts_at_the_origin() {
    let c = ColorControl::new(1234, 3000, 100, true, true, false);
    assert_eq!(c.row, 0);
    assert_eq!(c.col, 0);
    assert_eq!(c.seed, 234);
    assert!(c.background_mode);
    assert!(c.dialup_mode);
    assert!(!c.print_color);
}
