//! Viewport panel state: the orbit camera, the grid and the frame readouts.
//!
//! Single-precision values are held as their bit patterns (`f64` readouts as
//! theirs); the camera limits follow `f32::clamp` on those patterns.

use vstd::prelude::*;

use crate::editor_workspace::docking::{f32_clamp, f32_clamp_bits};

verus! {

/// Largest camera pitch either way: `π/2 − 0.01`.
pub const PITCH_LIMIT: u32 = 0x3fc7_c82du32;
/// `−(π/2 − 0.01)`.
pub const NEG_PITCH_LIMIT: u32 = 0xbfc7_c82du32;
/// Closest the camera gets to its target: `0.5`.
pub const MIN_DISTANCE: u32 = 0x3f00_0000u32;
/// Farthest the camera gets from its target: `1000.0`.
pub const MAX_DISTANCE: u32 = 0x447a_0000u32;

/// `π/4`, the starting pitch.
pub const DEFAULT_PITCH: u32 = 0x3f49_0fdbu32;
/// `10.0`, the starting distance.
pub const DEFAULT_DISTANCE: u32 = 0x4120_0000u32;
/// `20.0`, the grid's half extent in cells.
pub const DEFAULT_GRID_SIZE: u32 = 0x41a0_0000u32;

/// Central 3D/2D viewport panel.
pub struct ViewportPanel {
    /// Camera yaw in radians (bit pattern).
    pub camera_yaw: u32,
    /// Camera pitch in radians, within ±[`PITCH_LIMIT`] (bit pattern).
    pub camera_pitch: u32,
    /// Distance from the orbit target (bit pattern).
    pub camera_distance: u32,
    /// World-space point the camera orbits (bit patterns).
    pub camera_target: [u32; 3],
    /// Whether the grid overlay is drawn.
    pub grid_visible: bool,
    /// Grid half extent in cells (bit pattern).
    pub grid_size: u32,
    /// Frames per second shown in the stats bar (bit pattern of an `f64`).
    pub fps: u64,
    /// Frame time in milliseconds shown in the stats bar (bit pattern of an
    /// `f64`).
    pub frame_time_ms: u64,
    /// Screen rectangle of the last drawn viewport (`[min_x, min_y, max_x,
    /// max_y]`, bit patterns), used for picking.
    pub last_viewport_rect: Option<[u32; 4]>,
}

impl ViewportPanel {
    /// The viewport a new editor shows.
    pub open spec fn is_default(&self) -> bool {
        &&& self.camera_yaw == 0
        &&& self.camera_pitch == DEFAULT_PITCH
        &&& self.camera_distance == DEFAULT_DISTANCE
        &&& self.camera_target == [0u32, 0u32, 0u32]
        &&& self.grid_visible
        &&& self.grid_size == DEFAULT_GRID_SIZE
        &&& self.fps == 0
        &&& self.frame_time_ms == 0
        &&& self.last_viewport_rect is None
    }

    /// A camera at 45° pitch, 10 units out, looking at the origin, with the
    /// grid shown.
    pub fn new() -> (v: Self)
        ensures
            v.is_default(),
    {
        Self {
            camera_yaw: 0,
            camera_pitch: DEFAULT_PITCH,
            camera_distance: DEFAULT_DISTANCE,
            camera_target: [0, 0, 0],
            grid_visible: true,
            grid_size: DEFAULT_GRID_SIZE,
            fps: 0,
            frame_time_ms: 0,
            last_viewport_rect: None,
        }
    }

    /// Panel title.
    pub fn title(&self) -> (s: &'static str)
        ensures
            s@ == "Viewport"@,
    {
        "Viewport"
    }

    /// Keep a pitch within ±[`PITCH_LIMIT`].
    pub fn clamp_pitch(pitch: u32) -> (r: u32)
        ensures
            r == f32_clamp(pitch, NEG_PITCH_LIMIT, PITCH_LIMIT),
    {
        f32_clamp_bits(pitch, NEG_PITCH_LIMIT, PITCH_LIMIT)
    }

    /// Keep a camera distance within [`MIN_DISTANCE`]–[`MAX_DISTANCE`].
    pub fn clamp_distance(distance: u32) -> (r: u32)
        ensures
            r == f32_clamp(distance, MIN_DISTANCE, MAX_DISTANCE),
    {
        f32_clamp_bits(distance, MIN_DISTANCE, MAX_DISTANCE)
    }

    /// The grid button.
    pub fn toggle_grid(&mut self)
        ensures
            final(self).grid_visible == !old(self).grid_visible,
            final(self).camera_pitch == old(self).camera_pitch,
            final(self).camera_distance == old(self).camera_distance,
    {
        self.grid_visible = !self.grid_visible;
    }
}

impl Default for ViewportPanel {
    fn default() -> (v: Self)
        ensures
            v.is_default(),
    {
        Self::new()
    }
}

} // verus!
