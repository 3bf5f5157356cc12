//! Editor workspace: the docking layout, keyboard shortcuts, and the
//! enums the gizmo and settings dialog share.

pub mod docking;
pub mod settings;
pub mod shortcuts;

use vstd::prelude::*;

verus! {

/// Which axis the user is interacting with.
#[derive(Debug, Clone, Copy, PartialEq, Eq, Structural)]
pub enum GizmoAxis {
    X,
    Y,
    Z,
}

/// Tabs of the settings dialog.
#[derive(Debug, Clone, Copy, PartialEq, Eq, Structural)]
pub enum SettingsTab {
    Rendering,
    Editor,
    Shortcuts,
}

} // verus!
