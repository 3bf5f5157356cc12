//! Window settings and errors of the editor application.

use vstd::prelude::*;

use crate::project::ProjectManager;
use crate::text::string_from;

verus! {

/// Default editor window width in logical pixels.
pub const DEFAULT_WIDTH: u32 = 1280;

/// Default editor window height in logical pixels.
pub const DEFAULT_HEIGHT: u32 = 720;

/// Window title when no project is loaded.
pub const WINDOW_TITLE: &'static str = "Chronos Engine Editor";

/// The title the editor window shows: the project's name before the editor's
/// name while a project is loaded, the editor's name alone otherwise.
pub open spec fn window_title_text(manager: ProjectManager) -> Seq<char> {
    match manager.current_project {
        Some(p) => p.name@ + " \u{2014} "@ + "Chronos Engine Editor"@,
        None => "Chronos Engine Editor"@,
    }
}

/// The title of the editor window for the given project state.
pub fn window_title(manager: &ProjectManager) -> (s: String)
    ensures
        s@ == window_title_text(*manager),
{
    match &manager.current_project {
        Some(p) => {
            let mut s = string_from(p.name.as_str());
            s.append(" \u{2014} ");
            s.append(WINDOW_TITLE);
            s
        },
        None => string_from(WINDOW_TITLE),
    }
}

/// Errors that can occur while running the editor.
#[derive(Debug)]
pub enum EditorError {
    /// Failed to create the editor window.
    WindowCreation(String),
    /// Failed to create the wgpu surface.
    SurfaceCreation(String),
    /// No compatible GPU adapter found.
    NoAdapter,
    /// Failed to request a wgpu device.
    DeviceRequest(String),
    /// Failed to acquire the next surface texture for rendering.
    SurfaceTexture(String),
    /// Other / miscellaneous error.
    Other(String),
}

/// The message of an editor error.
pub open spec fn editor_error_text(e: EditorError) -> Seq<char> {
    match e {
        EditorError::WindowCreation(m) => "Failed to create editor window: "@ + m@,
        EditorError::SurfaceCreation(m) => "Failed to create wgpu surface: "@ + m@,
        EditorError::NoAdapter => "No compatible GPU adapter found"@,
        EditorError::DeviceRequest(m) => "Failed to request wgpu device: "@ + m@,
        EditorError::SurfaceTexture(m) => "Failed to acquire surface texture: "@ + m@,
        EditorError::Other(m) => "Editor error: "@ + m@,
    }
}

impl EditorError {
    /// Human-readable message for this error.
    pub fn to_string(&self) -> (s: String)
        ensures
            s@ == editor_error_text(*self),
    {
        let mut s = String::new();
        match self {
            EditorError::WindowCreation(m) => {
                s.append("Failed to create editor window: ");
                s.append(m.as_str());
            },
            EditorError::SurfaceCreation(m) => {
                s.append("Failed to create wgpu surface: ");
                s.append(m.as_str());
            },
            EditorError::NoAdapter => {
                s.append("No compatible GPU adapter found");
            },
            EditorError::DeviceRequest(m) => {
                s.append("Failed to request wgpu device: ");
                s.append(m.as_str());
            },
            EditorError::SurfaceTexture(m) => {
                s.append("Failed to acquire surface texture: ");
                s.append(m.as_str());
            },
            EditorError::Other(m) => {
                s.append("Editor error: ");
                s.append(m.as_str());
            },
        }
        s
    }
}

} // verus!
