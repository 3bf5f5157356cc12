use chronos_engine::editor_panels::viewport::{ViewportPanel, MAX_DISTANCE, MIN_DISTANCE, PITCH_LIMIT};

fn f(bits: u32) -> f32 {
    f32::from_bits(bits)
}

#[test]
fn viewport_new_has_correct_defaults() {
    let vp = ViewportPanel::new();
    assert!((f(vp.camera_yaw) - 0.0).abs() < f32::EPSILON);
    assert!(
        (f(vp.camera_pitch) - std::f32::consts::FRAC_PI_4).abs() < f32::EPSILON,
        "default pitch should be 45 degrees"
    );
    assert!((f(vp.camera_distance) - 10.0).abs() < f32::EPSILON);
    assert_eq!(vp.camera_target.map(f), [0.0, 0.0, 0.0]);
    assert!(vp.grid_visible, "grid should be visible by default");
    assert!((f(vp.grid_size) - 20.0).abs() < f32::EPSILON);
    assert!((f64::from_bits(vp.fps) - 0.0).abs() < f64::EPSILON);
    assert!((f64::from_bits(vp.frame_time_ms) - 0.0).abs() < f64::EPSILON);
}

#[test]
fn title_returns_viewport() {
    let vp = ViewportPanel::new();
    assert_eq!(vp.title(), "Viewport");
}

#[test]
fn pitch_clamp_within_bounds() {
    let clamped = ViewportPanel::clamp_pitch(PITCH_LIMIT);
    assert!((f(clamped) - f(PITCH_LIMIT)).abs() < f32::EPSILON);
    assert_eq!(f(PITCH_LIMIT), std::f32::consts::FRAC_PI_2 - 0.01);
}

#[test]
fn pitch_clamp_exceeds_positive() {
    let clamped = ViewportPanel::clamp_pitch(2.0f32.to_bits());
    assert!(f(clamped) <= f(PITCH_LIMIT), "pitch should not exceed PITCH_LIMIT");
}

#[test]
fn pitch_clamp_exceeds_negative() {
    let clamped = ViewportPanel::clamp_pitch((-2.0f32).to_bits());
    assert!(f(clamped) >= -f(PITCH_LIMIT), "pitch should not go below -PITCH_LIMIT");
}

#[test]
fn viewport_grid_toggle_flips_visibility() {
    let mut vp = ViewportPanel::new();
    assert!(vp.grid_visible);
    vp.toggle_grid();
    assert!(!vp.grid_visible);
    vp.toggle_grid();
    assert!(vp.grid_visible);
}

#[test]
fn fps_display_format() {
    let vp = ViewportPanel { fps: 144.7f64.to_bits(), ..ViewportPanel::new() };
    let text = format!("FPS: {:.0}", f64::from_bits(vp.fps));
    assert_eq!(text, "FPS: 145");
}

#[test]
fn frame_time_display_format() {
    let vp = ViewportPanel { frame_time_ms: 6.944f64.to_bits(), ..ViewportPanel::new() };
    let text = format!("Frame: {:.2} ms", f64::from_bits(vp.frame_time_ms));
    assert_eq!(text, "Frame: 6.94 ms");
}

#[test]
fn distance_clamp_minimum() {
    let clamped = ViewportPanel::clamp_distance(0.01f32.to_bits());
    assert!((f(clamped) - f(MIN_DISTANCE)).abs() < f32::EPSILON);
}

#[test]
fn distance_clamp_maximum() {
    let clamped = ViewportPanel::clamp_distance(5000.0f32.to_bits());
    assert!((f(clamped) - f(MAX_DISTANCE)).abs() < f32::EPSILON);
}

#[test]
fn viewport_default_matches_new() {
    let from_new = ViewportPanel::new();
    let from_default = ViewportPanel::default();
    assert_eq!(from_new.camera_yaw, from_default.camera_yaw);
    assert_eq!(from_new.camera_pitch, from_default.camera_pitch);
    assert_eq!(from_new.camera_distance, from_default.camera_distance);
    assert_eq!(from_new.camera_target, from_default.camera_target);
    assert_eq!(from_new.grid_visible, from_default.grid_visible);
}

#[test]
fn clamps_agree_with_f32_clamp() {
    for x in [-3.0f32, -0.0, 0.0, 0.4, 0.6, 1.55, 1.57, 999.0, 1001.0, f32::NAN, f32::INFINITY] {
        let p = ViewportPanel::clamp_pitch(x.to_bits());
        let lim = std::f32::consts::FRAC_PI_2 - 0.01;
        assert_eq!(p, x.clamp(-lim, lim).to_bits(), "pitch {x}");
        let d = ViewportPanel::clamp_distance(x.to_bits());
        assert_eq!(d, x.clamp(0.5, 1000.0).to_bits(), "distance {x}");
    }
}
