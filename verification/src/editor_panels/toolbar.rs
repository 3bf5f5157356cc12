//! Toolbar panel: play / pause / stop, gizmo mode, snap and grid toggles,
//! and the toolbar's keyboard shortcuts.

use vstd::prelude::*;

use crate::editor_panels::{EditorState, GizmoMode, PlayMode};

verus! {

/// Toolbar state.
pub struct ToolbarPanel {
    /// Seconds spent in play mode since the last start (bit pattern of an
    /// `f64`).
    pub play_elapsed: u64,
    /// When the previous frame was drawn.
    pub last_frame_time: Option<std::time::Instant>,
    /// Whether the viewport grid is visible.
    pub grid_visible: bool,
}

/// Keys of the toolbar pressed this frame.
#[derive(Debug, Clone, Copy, PartialEq, Eq, Structural)]
pub struct ToolbarKeys {
    /// `W`: translate gizmo.
    pub w: bool,
    /// `E`: rotate gizmo.
    pub e: bool,
    /// `R`: scale gizmo.
    pub r: bool,
    /// `G`: toggle snapping.
    pub g: bool,
    /// `F5`: start or stop play mode.
    pub f5: bool,
}

/// Play mode after `F5`: stopped starts playing, anything else stops.
pub open spec fn toggled_play(m: PlayMode) -> PlayMode {
    match m {
        PlayMode::Stopped => PlayMode::Playing,
        _ => PlayMode::Stopped,
    }
}

/// Pressing `F5` twice from stopped or playing comes back to where it
/// started; from paused it ends up playing.
pub proof fn f5_twice(m: PlayMode)
    ensures
        m != PlayMode::Paused ==> toggled_play(toggled_play(m)) == m,
        m == PlayMode::Paused ==> toggled_play(toggled_play(m)) == PlayMode::Playing,
{
}

impl ToolbarPanel {
    /// A toolbar with no play time, no previous frame and the grid shown.
    pub fn new() -> (p: Self)
        ensures
            p.play_elapsed == 0,
            p.last_frame_time is None,
            p.grid_visible,
    {
        Self { play_elapsed: 0, last_frame_time: None, grid_visible: true }
    }

    /// Panel title.
    pub fn title(&self) -> (s: &'static str)
        ensures
            s@ == "Toolbar"@,
    {
        "Toolbar"
    }

    /// Reset the play timer to zero.
    pub fn reset_play_timer(&mut self)
        ensures
            final(self).play_elapsed == 0,
            final(self).grid_visible == old(self).grid_visible,
    {
        self.play_elapsed = 0;
    }

    /// The Play button: a stopped editor starts playing from zero.
    pub fn press_play(&mut self, state: &mut EditorState)
        ensures
            old(state).play_mode == PlayMode::Stopped ==> final(state).play_mode == PlayMode::Playing
                && final(self).play_elapsed == 0,
            old(state).play_mode != PlayMode::Stopped ==> final(state).play_mode == old(state).play_mode && final(self).play_elapsed == old(self).play_elapsed,
            final(self).grid_visible == old(self).grid_visible,
            final(state).gizmo_mode == old(state).gizmo_mode,
            final(state).snap_enabled == old(state).snap_enabled,
    {
        if state.play_mode == PlayMode::Stopped {
            state.play_mode = PlayMode::Playing;
            self.reset_play_timer();
        }
    }

    /// The Pause button: a playing editor pauses.
    pub fn press_pause(&mut self, state: &mut EditorState)
        ensures
            final(state).play_mode == (if old(state).play_mode == PlayMode::Playing {
                PlayMode::Paused
            } else {
                old(state).play_mode
            }),
            final(self).play_elapsed == old(self).play_elapsed,
            final(self).grid_visible == old(self).grid_visible,
            final(state).gizmo_mode == old(state).gizmo_mode,
            final(state).snap_enabled == old(state).snap_enabled,
    {
        if state.play_mode == PlayMode::Playing {
            state.play_mode = PlayMode::Paused;
        }
    }

    /// The Stop button: a playing or paused editor stops and the timer
    /// resets.
    pub fn press_stop(&mut self, state: &mut EditorState)
        ensures
            final(state).play_mode == PlayMode::Stopped,
            old(state).play_mode != PlayMode::Stopped ==> final(self).play_elapsed == 0,
            old(state).play_mode == PlayMode::Stopped ==> final(self).play_elapsed == old(self).play_elapsed,
            final(self).grid_visible == old(self).grid_visible,
            final(state).gizmo_mode == old(state).gizmo_mode,
            final(state).snap_enabled == old(state).snap_enabled,
    {
        if state.play_mode != PlayMode::Stopped {
            state.play_mode = PlayMode::Stopped;
            self.reset_play_timer();
        }
    }

    /// The grid button.
    pub fn toggle_grid(&mut self)
        ensures
            final(self).grid_visible == !old(self).grid_visible,
            final(self).play_elapsed == old(self).play_elapsed,
    {
        self.grid_visible = !self.grid_visible;
    }

    /// The toolbar's keyboard shortcuts: `W`, `E` and `R` pick the gizmo
    /// mode (the last of them wins), `G` toggles snapping and `F5` starts or
    /// stops play mode.
    pub fn handle_shortcuts(state: &mut EditorState, keys: ToolbarKeys)
        ensures
            final(state).gizmo_mode == (if keys.r {
                GizmoMode::Scale
            } else if keys.e {
                GizmoMode::Rotate
            } else if keys.w {
                GizmoMode::Translate
            } else {
                old(state).gizmo_mode
            }),
            final(state).snap_enabled == (old(state).snap_enabled != keys.g),
            final(state).play_mode == (if keys.f5 {
                toggled_play(old(state).play_mode)
            } else {
                old(state).play_mode
            }),
            final(state).world == old(state).world,
            final(state).selected_entities == old(state).selected_entities,
            final(state).console_log == old(state).console_log,
            final(state).project_manager == old(state).project_manager,
    {
        let gizmo = if keys.r {
            GizmoMode::Scale
        } else if keys.e {
            GizmoMode::Rotate
        } else if keys.w {
            GizmoMode::Translate
        } else {
            state.gizmo_mode
        };
        let snap = state.snap_enabled != keys.g;
        let play = if keys.f5 {
            match state.play_mode {
                PlayMode::Stopped => PlayMode::Playing,
                PlayMode::Playing | PlayMode::Paused => PlayMode::Stopped,
            }
        } else {
            state.play_mode
        };
        state.gizmo_mode = gizmo;
        state.snap_enabled = snap;
        state.play_mode = play;
    }
}

impl Default for ToolbarPanel {
    fn default() -> (p: Self)
        ensures
            p.play_elapsed == 0,
            p.last_frame_time is None,
            p.grid_visible,
    {
        Self::new()
    }
}

} // verus!
