use chronos_engine::editor_panels::toolbar::{ToolbarKeys, ToolbarPanel};
use chronos_engine::editor_panels::{EditorState, GizmoMode, PlayMode};

fn no_keys() -> ToolbarKeys {
    ToolbarKeys { w: false, e: false, r: false, g: false, f5: false }
}

#[test]
fn toolbar_new_returns_expected_defaults() {
    let panel = ToolbarPanel::new();
    assert!((f64::from_bits(panel.play_elapsed) - 0.0).abs() < f64::EPSILON);
    assert!(panel.last_frame_time.is_none());
    assert!(panel.grid_visible, "grid should be visible by default");
}

#[test]
fn toolbar_default_matches_new() {
    let from_new = ToolbarPanel::new();
    let from_default = ToolbarPanel::default();
    assert_eq!(from_new.play_elapsed, from_default.play_elapsed);
    assert_eq!(from_new.grid_visible, from_default.grid_visible);
}

#[test]
fn title_returns_toolbar() {
    let panel = ToolbarPanel::new();
    assert_eq!(panel.title(), "Toolbar");
}

#[test]
fn play_mode_stopped_to_playing() {
    let mut state = EditorState::new();
    assert_eq!(state.play_mode, PlayMode::Stopped);
    state.play_mode = PlayMode::Playing;
    assert_eq!(state.play_mode, PlayMode::Playing);
}

#[test]
fn play_mode_playing_to_paused() {
    let mut state = EditorState::new();
    state.play_mode = PlayMode::Playing;
    state.play_mode = PlayMode::Paused;
    assert_eq!(state.play_mode, PlayMode::Paused);
}

#[test]
fn play_mode_paused_to_stopped() {
    let mut state = EditorState::new();
    state.play_mode = PlayMode::Playing;
    state.play_mode = PlayMode::Paused;
    state.play_mode = PlayMode::Stopped;
    assert_eq!(state.play_mode, PlayMode::Stopped);
}

#[test]
fn play_mode_cycle_all_states() {
    let mut panel = ToolbarPanel::new();
    let mut state = EditorState::new();
    assert_eq!(state.play_mode, PlayMode::Stopped);
    panel.press_play(&mut state);
    assert_eq!(state.play_mode, PlayMode::Playing);
    panel.press_pause(&mut state);
    assert_eq!(state.play_mode, PlayMode::Paused);
    panel.press_stop(&mut state);
    assert_eq!(state.play_mode, PlayMode::Stopped);
}

#[test]
fn gizmo_mode_cycles_through_all_variants() {
    let mut state = EditorState::new();
    assert_eq!(state.gizmo_mode, GizmoMode::Translate);
    state.gizmo_mode = GizmoMode::Rotate;
    assert_eq!(state.gizmo_mode, GizmoMode::Rotate);
    state.gizmo_mode = GizmoMode::Scale;
    assert_eq!(state.gizmo_mode, GizmoMode::Scale);
    state.gizmo_mode = GizmoMode::Translate;
    assert_eq!(state.gizmo_mode, GizmoMode::Translate);
}

#[test]
fn snap_toggle_flips() {
    let mut state = EditorState::new();
    assert!(!state.snap_enabled);
    ToolbarPanel::handle_shortcuts(&mut state, ToolbarKeys { g: true, ..no_keys() });
    assert!(state.snap_enabled);
    ToolbarPanel::handle_shortcuts(&mut state, ToolbarKeys { g: true, ..no_keys() });
    assert!(!state.snap_enabled);
}

#[test]
fn toolbar_grid_toggle_flips_visibility() {
    let mut panel = ToolbarPanel::new();
    assert!(panel.grid_visible);
    panel.toggle_grid();
    assert!(!panel.grid_visible);
    panel.toggle_grid();
    assert!(panel.grid_visible);
}

#[test]
fn snap_size_default() {
    let state = EditorState::new();
    assert!((f32::from_bits(state.snap_size) - 1.0).abs() < f32::EPSILON);
}

#[test]
fn f5_toggles_stopped_to_playing() {
    let mut state = EditorState::new();
    assert_eq!(state.play_mode, PlayMode::Stopped);
    ToolbarPanel::handle_shortcuts(&mut state, ToolbarKeys { f5: true, ..no_keys() });
    assert_eq!(state.play_mode, PlayMode::Playing);
}

#[test]
fn f5_toggles_playing_to_stopped() {
    let mut state = EditorState::new();
    state.play_mode = PlayMode::Playing;
    ToolbarPanel::handle_shortcuts(&mut state, ToolbarKeys { f5: true, ..no_keys() });
    assert_eq!(state.play_mode, PlayMode::Stopped);
}

#[test]
fn reset_play_timer_clears_elapsed() {
    let mut panel = ToolbarPanel::new();
    panel.play_elapsed = 42.0f64.to_bits();
    panel.reset_play_timer();
    assert!((f64::from_bits(panel.play_elapsed) - 0.0).abs() < f64::EPSILON);
}

#[test]
fn later_gizmo_keys_win_and_buttons_respect_mode() {
    let mut panel = ToolbarPanel::new();
    let mut state = EditorState::new();
    ToolbarPanel::handle_shortcuts(&mut state, ToolbarKeys { w: true, e: true, ..no_keys() });
    assert_eq!(state.gizmo_mode, GizmoMode::Rotate);
    ToolbarPanel::handle_shortcuts(&mut state, ToolbarKeys { w: true, r: true, ..no_keys() });
    assert_eq!(state.gizmo_mode, GizmoMode::Scale);
    panel.press_pause(&mut state);
    assert_eq!(state.play_mode, PlayMode::Stopped);
    panel.play_elapsed = 3.5f64.to_bits();
    panel.press_stop(&mut state);
    assert_eq!(f64::from_bits(panel.play_elapsed), 3.5);
    panel.press_play(&mut state);
    assert_eq!(panel.play_elapsed, 0);
    panel.press_play(&mut state);
    assert_eq!(state.play_mode, PlayMode::Playing);
}

#[test]
fn f5_twice_returns_or_resumes() {
    let f5 = ToolbarKeys { f5: true, ..no_keys() };
    for (start, end) in [
        (PlayMode::Stopped, PlayMode::Stopped),
        (PlayMode::Playing, PlayMode::Playing),
        (PlayMode::Paused, PlayMode::Playing),
    ] {
        let mut state = EditorState::new();
        state.play_mode = start;
        ToolbarPanel::handle_shortcuts(&mut state, f5);
        ToolbarPanel::handle_shortcuts(&mut state, f5);
        assert_eq!(state.play_mode, end);
    }
}
