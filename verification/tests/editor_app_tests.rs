use chronos_engine::editor_app::{
    window_title, EditorError, DEFAULT_HEIGHT, DEFAULT_WIDTH, WINDOW_TITLE,
};
use chronos_engine::project::{ProjectManifest, ProjectManager, ProjectTemplate};

#[test]
fn editor_error_window_creation_display() {
    let err = EditorError::WindowCreation("bad handle".into());
    let msg = err.to_string();
    assert!(msg.contains("Failed to create editor window"));
    assert!(msg.contains("bad handle"));
}

#[test]
fn editor_error_surface_creation_display() {
    let err = EditorError::SurfaceCreation("no surface".into());
    let msg = err.to_string();
    assert!(msg.contains("Failed to create wgpu surface"));
    assert!(msg.contains("no surface"));
}

#[test]
fn editor_error_no_adapter_display() {
    let err = EditorError::NoAdapter;
    let msg = err.to_string();
    assert!(msg.contains("No compatible GPU adapter"));
}

#[test]
fn editor_error_device_request_display() {
    let err = EditorError::DeviceRequest("timeout".into());
    let msg = err.to_string();
    assert!(msg.contains("Failed to request wgpu device"));
    assert!(msg.contains("timeout"));
}

#[test]
fn editor_error_surface_texture_display() {
    let err = EditorError::SurfaceTexture("lost".into());
    let msg = err.to_string();
    assert!(msg.contains("Failed to acquire surface texture"));
    assert!(msg.contains("lost"));
}

#[test]
fn editor_error_other_display() {
    let err = EditorError::Other("something went wrong".into());
    let msg = err.to_string();
    assert!(msg.contains("Editor error"));
    assert!(msg.contains("something went wrong"));
}

#[test]
fn editor_error_debug_format() {
    let err = EditorError::NoAdapter;
    let debug = format!("{err:?}");
    assert!(debug.contains("NoAdapter"));
}

#[test]
fn editor_error_exact_messages() {
    assert_eq!(EditorError::Other("x".into()).to_string(), "Editor error: x");
    assert_eq!(EditorError::NoAdapter.to_string(), "No compatible GPU adapter found");
}

#[test]
fn editor_defaults() {
    assert_eq!(DEFAULT_WIDTH, 1280);
    assert_eq!(DEFAULT_HEIGHT, 720);
    assert_eq!(WINDOW_TITLE, "Chronos Engine Editor");
}

#[test]
fn window_title_without_project_is_editor_name() {
    let mgr = ProjectManager::new();
    assert_eq!(window_title(&mgr), "Chronos Engine Editor");
}

#[test]
fn window_title_with_project_names_it_first() {
    let manifest = ProjectManifest::new("Space Game", ProjectTemplate::Empty);
    let mgr = ProjectManager::open_project(manifest, "/tmp/space");
    assert_eq!(window_title(&mgr), "Space Game \u{2014} Chronos Engine Editor");
}
