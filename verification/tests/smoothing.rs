use lumaway::capture::RgbAverage;
use lumaway::smoothing::{color_delta, limit_channel_step, limit_color_step, ColorSmoother};

fn rgb(red: u8, green: u8, blue: u8) -> RgbAverage {
    RgbAverage { red, green, blue }
}

/// The current frame's weight `alpha` applied to each channel, rounded.
fn blend_with_weight(previous: &[RgbAverage], colors: &[RgbAverage], alpha: f64) -> Vec<RgbAverage> {
    let alpha = alpha.clamp(0.0, 1.0);
    let channel = |p: u8, c: u8| ((f64::from(p) * (1.0 - alpha)) + (f64::from(c) * alpha)).round() as u8;
    previous
        .iter()
        .zip(colors)
        .map(|(p, c)| rgb(channel(p.red, c.red), channel(p.green, c.green), channel(p.blue, c.blue)))
        .collect()
}

fn smooth(smoother: &mut ColorSmoother, colors: Vec<RgbAverage>, alpha: f64) -> Vec<RgbAverage> {
    let blended = blend_with_weight(smoother.previous(), &colors, alpha);
    smoother.smooth(colors, &blended)
}

#[test]
fn first_frame_passes_through() {
    let mut smoother = ColorSmoother::new();
    let colors = vec![rgb(10, 20, 30)];
    assert_eq!(smooth(&mut smoother, colors.clone(), 0.35), colors);
}

#[test]
fn applies_exponential_smoothing_per_channel() {
    let mut smoother = ColorSmoother::new();
    smooth(&mut smoother, vec![rgb(0, 100, 200)], 0.25);
    assert_eq!(smooth(&mut smoother, vec![rgb(100, 0, 0)], 0.25), vec![rgb(25, 75, 150)]);
}

#[test]
fn alpha_one_uses_current_frame() {
    let mut smoother = ColorSmoother::new();
    smooth(&mut smoother, vec![rgb(0, 0, 0)], 1.0);
    assert_eq!(smooth(&mut smoother, vec![rgb(255, 128, 64)], 1.0), vec![rgb(255, 128, 64)]);
}

#[test]
fn channel_count_change_resets_state() {
    let mut smoother = ColorSmoother::new();
    smooth(&mut smoother, vec![rgb(0, 0, 0)], 0.1);
    let colors = vec![rgb(255, 0, 0), rgb(0, 0, 255)];
    assert_eq!(smooth(&mut smoother, colors.clone(), 0.1), colors);
}

#[test]
fn ignores_changes_within_noise_threshold() {
    let mut smoother = ColorSmoother::with_noise_threshold(4);
    smooth(&mut smoother, vec![rgb(100, 120, 140)], 1.0);
    assert_eq!(smooth(&mut smoother, vec![rgb(103, 116, 141)], 1.0), vec![rgb(100, 120, 140)]);
}

#[test]
fn accepts_changes_above_noise_threshold() {
    let mut smoother = ColorSmoother::with_noise_threshold(4);
    smooth(&mut smoother, vec![rgb(100, 120, 140)], 1.0);
    assert_eq!(smooth(&mut smoother, vec![rgb(105, 120, 140)], 1.0), vec![rgb(105, 120, 140)]);
}

#[test]
fn limits_per_frame_step_up_and_down() {
    let mut smoother = ColorSmoother::with_config(0, Some(10));
    smooth(&mut smoother, vec![rgb(100, 100, 100)], 1.0);
    assert_eq!(smooth(&mut smoother, vec![rgb(255, 0, 105)], 1.0), vec![rgb(110, 90, 105)]);
}

#[test]
fn max_step_none_keeps_smoothed_value() {
    let mut smoother = ColorSmoother::with_config(0, None);
    smooth(&mut smoother, vec![rgb(100, 100, 100)], 1.0);
    assert_eq!(smooth(&mut smoother, vec![rgb(255, 0, 105)], 1.0), vec![rgb(255, 0, 105)]);
}

#[test]
fn step_limit_saturates_at_the_ends_of_the_range() {
    assert_eq!(limit_channel_step(250, 255, 10), 255);
    assert_eq!(limit_channel_step(5, 0, 10), 0);
    assert_eq!(limit_channel_step(5, 200, 10), 15);
    assert_eq!(limit_color_step(rgb(0, 0, 0), rgb(9, 30, 0), Some(10)), rgb(9, 10, 0));
    assert_eq!(limit_color_step(rgb(0, 0, 0), rgb(9, 30, 0), None), rgb(9, 30, 0));
}

#[test]
fn color_delta_is_the_largest_channel_change() {
    assert_eq!(color_delta(rgb(100, 120, 140), rgb(103, 116, 141)), 4);
    assert_eq!(color_delta(rgb(0, 255, 0), rgb(0, 0, 0)), 255);
    assert_eq!(color_delta(rgb(7, 7, 7), rgb(7, 7, 7)), 0);
}

#[test]
fn shown_colors_are_the_previous_frame() {
    let mut smoother = ColorSmoother::with_config(0, Some(10));
    smooth(&mut smoother, vec![rgb(100, 100, 100)], 1.0);
    let shown = smooth(&mut smoother, vec![rgb(255, 0, 105)], 1.0);
    assert_eq!(smoother.previous(), shown.as_slice());
}
