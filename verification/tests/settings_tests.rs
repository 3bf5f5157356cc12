use chronos_engine::editor_workspace::settings::{EditorSettings, SettingsDialog};
use chronos_engine::editor_workspace::SettingsTab;
use std::f32::consts::FRAC_PI_4;

fn val(bits: u32) -> f32 {
    f32::from_bits(bits)
}

#[test]
fn editor_settings_new_defaults() {
    let s = EditorSettings::new();
    assert!(s.vsync);
    assert_eq!(s.max_fps, 60);
    assert_eq!(s.background_color.map(val), [0.067, 0.067, 0.067]);
    assert!(s.grid_visible);
    assert!((val(s.grid_spacing) - 1.0).abs() < f32::EPSILON);
    assert_eq!(s.grid_major_every, 5);
    assert_eq!(s.undo_history_size, 100);
    assert_eq!(s.auto_save_interval_secs, 300);
    assert!(!s.snap_enabled);
    assert!((val(s.snap_size) - 1.0).abs() < f32::EPSILON);
    assert!((val(s.gizmo_size) - 80.0).abs() < f32::EPSILON);
    assert!((val(s.pick_radius) - 5.0).abs() < f32::EPSILON);
    assert!((val(s.default_camera_distance) - 10.0).abs() < f32::EPSILON);
    assert!((val(s.default_camera_pitch_rad) - FRAC_PI_4).abs() < f32::EPSILON);
    assert!((val(s.camera_speed) - 1.0).abs() < f32::EPSILON);
    assert!((val(s.zoom_speed) - 1.0).abs() < f32::EPSILON);
}

#[test]
fn apply_clamp_clamps_low_values() {
    let mut s = EditorSettings::new();
    s.max_fps = 1;
    s.grid_spacing = (-5.0f32).to_bits();
    s.grid_major_every = 0;
    s.undo_history_size = 1;
    s.snap_size = 0.0f32.to_bits();
    s.gizmo_size = 1.0f32.to_bits();
    s.pick_radius = 0.0f32.to_bits();
    s.default_camera_distance = 0.0f32.to_bits();
    s.default_camera_pitch_rad = (-1.0f32).to_bits();
    s.camera_speed = 0.0f32.to_bits();
    s.zoom_speed = 0.0f32.to_bits();
    s.background_color = [(-0.5f32).to_bits(), 2.0f32.to_bits(), (-0.1f32).to_bits()];
    s.apply_clamp();
    assert_eq!(s.max_fps, 30);
    assert!((val(s.grid_spacing) - 0.1).abs() < 0.01);
    assert_eq!(s.grid_major_every, 2);
    assert_eq!(s.undo_history_size, 10);
    assert!((val(s.snap_size) - 0.01).abs() < 0.001);
    assert!((val(s.gizmo_size) - 20.0).abs() < 0.01);
    assert!((val(s.pick_radius) - 1.0).abs() < 0.01);
    assert!((val(s.default_camera_distance) - 1.0).abs() < 0.01);
    assert!((val(s.default_camera_pitch_rad)).abs() < 0.001);
    assert!((val(s.camera_speed) - 0.1).abs() < 0.01);
    assert!((val(s.zoom_speed) - 0.1).abs() < 0.01);
    assert_eq!(s.background_color.map(val), [0.0, 1.0, 0.0]);
}

#[test]
fn apply_clamp_clamps_high_values() {
    let mut s = EditorSettings::new();
    s.max_fps = 9999;
    s.grid_spacing = 500.0f32.to_bits();
    s.grid_major_every = 100;
    s.undo_history_size = 99999;
    s.snap_size = 999.0f32.to_bits();
    s.gizmo_size = 9999.0f32.to_bits();
    s.pick_radius = 999.0f32.to_bits();
    s.default_camera_distance = 99999.0f32.to_bits();
    s.default_camera_pitch_rad = 10.0f32.to_bits();
    s.camera_speed = 100.0f32.to_bits();
    s.zoom_speed = 100.0f32.to_bits();
    s.apply_clamp();
    assert_eq!(s.max_fps, 240);
    assert!((val(s.grid_spacing) - 100.0).abs() < 0.01);
    assert_eq!(s.grid_major_every, 20);
    assert_eq!(s.undo_history_size, 1000);
    assert!((val(s.snap_size) - 100.0).abs() < 0.01);
    assert!((val(s.gizmo_size) - 200.0).abs() < 0.01);
    assert!((val(s.pick_radius) - 50.0).abs() < 0.01);
    assert!((val(s.default_camera_distance) - 1000.0).abs() < 0.01);
    assert!((val(s.default_camera_pitch_rad) - FRAC_PI_4 * 2.0).abs() < 0.01);
    assert!((val(s.camera_speed) - 10.0).abs() < 0.01);
    assert!((val(s.zoom_speed) - 10.0).abs() < 0.01);
}

#[test]
fn apply_clamp_idempotent_on_valid_values() {
    let s1 = EditorSettings::new();
    let mut s2 = s1.clone();
    s2.apply_clamp();
    assert_eq!(s1.max_fps, s2.max_fps);
    assert_eq!(s1.grid_spacing, s2.grid_spacing);
}

#[test]
fn apply_clamp_twice_equals_once() {
    let mut s = EditorSettings::new();
    s.max_fps = 7;
    s.gizmo_size = 1.0e9f32.to_bits();
    s.background_color = [f32::NAN.to_bits(), (-0.0f32).to_bits(), 0.5f32.to_bits()];
    s.apply_clamp();
    let once = s;
    s.apply_clamp();
    assert_eq!(s.max_fps, once.max_fps);
    assert_eq!(s.gizmo_size, once.gizmo_size);
    assert_eq!(s.background_color, once.background_color);
    assert!(val(s.background_color[0]).is_nan());
    assert_eq!(s.background_color[1], (-0.0f32).to_bits());
    assert_eq!(val(s.gizmo_size), 1.0e9f32.clamp(20.0, 200.0));
}

#[test]
fn dialog_new_defaults() {
    let d = SettingsDialog::new();
    assert!(!d.visible);
    assert_eq!(d.active_tab, SettingsTab::Rendering);
    assert_eq!(d.settings.max_fps, 60);
}

#[test]
fn tab_switching() {
    let mut d = SettingsDialog::new();
    assert_eq!(d.active_tab, SettingsTab::Rendering);
    d.active_tab = SettingsTab::Editor;
    assert_eq!(d.active_tab, SettingsTab::Editor);
    d.active_tab = SettingsTab::Shortcuts;
    assert_eq!(d.active_tab, SettingsTab::Shortcuts);
    d.active_tab = SettingsTab::Rendering;
    assert_eq!(d.active_tab, SettingsTab::Rendering);
}

#[test]
fn settings_visibility_toggle() {
    let mut d = SettingsDialog::new();
    assert!(!d.visible);
    d.visible = true;
    assert!(d.visible);
    d.visible = false;
    assert!(!d.visible);
}

#[test]
fn reset_to_defaults() {
    let mut d = SettingsDialog::new();
    d.settings.max_fps = 240;
    d.settings.vsync = false;
    d.settings.snap_enabled = true;
    d.settings = EditorSettings::new();
    assert_eq!(d.settings.max_fps, 60);
    assert!(d.settings.vsync);
    assert!(!d.settings.snap_enabled);
}

#[test]
fn dialog_buttons_apply_and_reset() {
    let mut d = SettingsDialog::new();
    d.settings.max_fps = 1000;
    d.apply();
    assert_eq!(d.settings.max_fps, 240);
    d.settings.vsync = false;
    d.reset_to_defaults();
    assert!(d.settings.vsync);
    assert_eq!(d.settings.max_fps, 60);
}

#[test]
fn default_trait_matches_new() {
    let via_new = EditorSettings::new();
    let via_default = EditorSettings::default();
    assert_eq!(via_new.max_fps, via_default.max_fps);
    assert_eq!(via_new.vsync, via_default.vsync);
    assert_eq!(via_new.undo_history_size, via_default.undo_history_size);
}
