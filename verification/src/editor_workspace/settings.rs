//! Editor settings and the dialog that edits them.
//!
//! Single-precision settings are held as their IEEE-754 bit patterns; the
//! clamps follow `f32::clamp` on those patterns.

use vstd::prelude::*;

use crate::editor_workspace::docking::{f32_clamp, f32_clamp_bits, f32_is_nan, f32_order_key};
use crate::editor_workspace::SettingsTab;

verus! {

/// `1.0`.
pub const F32_BITS_ONE: u32 = 0x3f80_0000u32;
/// `0.067`, the default background grey.
pub const F32_BITS_BACKGROUND: u32 = 0x3d89_374cu32;
/// `π / 4`.
pub const F32_BITS_FRAC_PI_4: u32 = 0x3f49_0fdbu32;
/// `π / 2`.
pub const F32_BITS_FRAC_PI_2: u32 = 0x3fc9_0fdbu32;

/// `0.0`.
pub const F32_BITS_ZERO: u32 = 0u32;
/// `0.01`.
pub const F32_BITS_0_01: u32 = 0x3c23_d70au32;
/// `0.1`.
pub const F32_BITS_0_1: u32 = 0x3dcc_cccdu32;
/// `5.0`.
pub const F32_BITS_5: u32 = 0x40a0_0000u32;
/// `10.0`.
pub const F32_BITS_10: u32 = 0x4120_0000u32;
/// `20.0`.
pub const F32_BITS_20: u32 = 0x41a0_0000u32;
/// `50.0`.
pub const F32_BITS_50: u32 = 0x4248_0000u32;
/// `80.0`.
pub const F32_BITS_80: u32 = 0x42a0_0000u32;
/// `100.0`.
pub const F32_BITS_100: u32 = 0x42c8_0000u32;
/// `200.0`.
pub const F32_BITS_200: u32 = 0x4348_0000u32;
/// `1000.0`.
pub const F32_BITS_1000: u32 = 0x447a_0000u32;

/// All user-configurable editor settings.
#[derive(Debug, Clone, Copy)]
pub struct EditorSettings {
    /// Whether to enable vertical sync.
    pub vsync: bool,
    /// Maximum frames per second (30–240).
    pub max_fps: u32,
    /// Viewport background colour `[r, g, b]`, each in 0–1 (bit patterns).
    pub background_color: [u32; 3],
    /// Whether the grid overlay is visible.
    pub grid_visible: bool,
    /// World-space distance between minor grid lines (bit pattern).
    pub grid_spacing: u32,
    /// Major grid line every N minor lines.
    pub grid_major_every: u32,
    /// Maximum number of undo steps retained.
    pub undo_history_size: usize,
    /// Auto-save interval in seconds (0 = disabled).
    pub auto_save_interval_secs: u32,
    /// Whether snap-to-grid is active by default.
    pub snap_enabled: bool,
    /// Snap increment in world units (bit pattern).
    pub snap_size: u32,
    /// Gizmo handle length in pixels (bit pattern).
    pub gizmo_size: u32,
    /// Pick radius in pixels for entity selection (bit pattern).
    pub pick_radius: u32,
    /// Default camera distance from the target (bit pattern).
    pub default_camera_distance: u32,
    /// Default camera pitch in radians (bit pattern).
    pub default_camera_pitch_rad: u32,
    /// Camera orbit speed multiplier (bit pattern).
    pub camera_speed: u32,
    /// Scroll-wheel zoom speed multiplier (bit pattern).
    pub zoom_speed: u32,
}

/// `Ord::clamp` on integers.
pub open spec fn int_clamp(x: int, lo: int, hi: int) -> int {
    if x < lo {
        lo
    } else if x > hi {
        hi
    } else {
        x
    }
}

/// The settings with every value clamped into its valid range.
pub open spec fn clamped(s: EditorSettings) -> EditorSettings {
    EditorSettings {
        max_fps: int_clamp(s.max_fps as int, 30, 240) as u32,
        background_color: [
            f32_clamp(s.background_color[0], F32_BITS_ZERO, F32_BITS_ONE),
            f32_clamp(s.background_color[1], F32_BITS_ZERO, F32_BITS_ONE),
            f32_clamp(s.background_color[2], F32_BITS_ZERO, F32_BITS_ONE),
        ],
        grid_spacing: f32_clamp(s.grid_spacing, F32_BITS_0_1, F32_BITS_100),
        grid_major_every: int_clamp(s.grid_major_every as int, 2, 20) as u32,
        undo_history_size: int_clamp(s.undo_history_size as int, 10, 1000) as usize,
        snap_size: f32_clamp(s.snap_size, F32_BITS_0_01, F32_BITS_100),
        gizmo_size: f32_clamp(s.gizmo_size, F32_BITS_20, F32_BITS_200),
        pick_radius: f32_clamp(s.pick_radius, F32_BITS_ONE, F32_BITS_50),
        default_camera_distance: f32_clamp(s.default_camera_distance, F32_BITS_ONE, F32_BITS_1000),
        default_camera_pitch_rad: f32_clamp(s.default_camera_pitch_rad, F32_BITS_ZERO, F32_BITS_FRAC_PI_2),
        camera_speed: f32_clamp(s.camera_speed, F32_BITS_0_1, F32_BITS_10),
        zoom_speed: f32_clamp(s.zoom_speed, F32_BITS_0_1, F32_BITS_10),
        ..s
    }
}

impl EditorSettings {
    /// The settings a new editor starts with.
    pub open spec fn is_default(&self) -> bool {
        &&& self.vsync
        &&& self.max_fps == 60
        &&& self.background_color == [F32_BITS_BACKGROUND, F32_BITS_BACKGROUND, F32_BITS_BACKGROUND]
        &&& self.grid_visible
        &&& self.grid_spacing == F32_BITS_ONE
        &&& self.grid_major_every == 5
        &&& self.undo_history_size == 100
        &&& self.auto_save_interval_secs == 300
        &&& !self.snap_enabled
        &&& self.snap_size == F32_BITS_ONE
        &&& self.gizmo_size == F32_BITS_80
        &&& self.pick_radius == F32_BITS_5
        &&& self.default_camera_distance == F32_BITS_10
        &&& self.default_camera_pitch_rad == F32_BITS_FRAC_PI_4
        &&& self.camera_speed == F32_BITS_ONE
        &&& self.zoom_speed == F32_BITS_ONE
    }

    /// Settings with sensible defaults.
    pub fn new() -> (s: Self)
        ensures
            s.is_default(),
    {
        Self {
            vsync: true,
            max_fps: 60,
            background_color: [F32_BITS_BACKGROUND, F32_BITS_BACKGROUND, F32_BITS_BACKGROUND],
            grid_visible: true,
            grid_spacing: F32_BITS_ONE,
            grid_major_every: 5,
            undo_history_size: 100,
            auto_save_interval_secs: 300,
            snap_enabled: false,
            snap_size: F32_BITS_ONE,
            gizmo_size: F32_BITS_80,
            pick_radius: F32_BITS_5,
            default_camera_distance: F32_BITS_10,
            default_camera_pitch_rad: F32_BITS_FRAC_PI_4,
            camera_speed: F32_BITS_ONE,
            zoom_speed: F32_BITS_ONE,
        }
    }

    /// Clamp every value into its valid range; the switches and the
    /// auto-save interval are left alone.
    pub fn apply_clamp(&mut self)
        ensures
            *final(self) == clamped(*old(self)),
    {
        self.max_fps = if self.max_fps < 30 {
            30
        } else if self.max_fps > 240 {
            240
        } else {
            self.max_fps
        };
        let c0 = f32_clamp_bits(self.background_color[0], F32_BITS_ZERO, F32_BITS_ONE);
        let c1 = f32_clamp_bits(self.background_color[1], F32_BITS_ZERO, F32_BITS_ONE);
        let c2 = f32_clamp_bits(self.background_color[2], F32_BITS_ZERO, F32_BITS_ONE);
        self.background_color = [c0, c1, c2];
        self.grid_spacing = f32_clamp_bits(self.grid_spacing, F32_BITS_0_1, F32_BITS_100);
        self.grid_major_every = if self.grid_major_every < 2 {
            2
        } else if self.grid_major_every > 20 {
            20
        } else {
            self.grid_major_every
        };
        self.undo_history_size = if self.undo_history_size < 10 {
            10
        } else if self.undo_history_size > 1000 {
            1000
        } else {
            self.undo_history_size
        };
        self.snap_size = f32_clamp_bits(self.snap_size, F32_BITS_0_01, F32_BITS_100);
        self.gizmo_size = f32_clamp_bits(self.gizmo_size, F32_BITS_20, F32_BITS_200);
        self.pick_radius = f32_clamp_bits(self.pick_radius, F32_BITS_ONE, F32_BITS_50);
        self.default_camera_distance = f32_clamp_bits(
            self.default_camera_distance,
            F32_BITS_ONE,
            F32_BITS_1000,
        );
        self.default_camera_pitch_rad = f32_clamp_bits(
            self.default_camera_pitch_rad,
            F32_BITS_ZERO,
            F32_BITS_FRAC_PI_2,
        );
        self.camera_speed = f32_clamp_bits(self.camera_speed, F32_BITS_0_1, F32_BITS_10);
        self.zoom_speed = f32_clamp_bits(self.zoom_speed, F32_BITS_0_1, F32_BITS_10);
    }
}

/// Bounds that `f32::clamp` accepts: neither is NaN and `lo <= hi`.
pub open spec fn clamp_bounds(lo: u32, hi: u32) -> bool {
    !f32_is_nan(lo) && !f32_is_nan(hi) && f32_order_key(lo) <= f32_order_key(hi)
}

/// Clamping a value already clamped into the same bounds changes nothing.
pub proof fn f32_clamp_idempotent(x: u32, lo: u32, hi: u32)
    requires
        clamp_bounds(lo, hi),
    ensures
        f32_clamp(f32_clamp(x, lo, hi), lo, hi) == f32_clamp(x, lo, hi),
{
}

/// Applying the clamps twice gives what applying them once gives.
pub proof fn clamping_settings_is_idempotent(s: EditorSettings)
    ensures
        clamped(clamped(s)) == clamped(s),
{
    assert(clamp_bounds(F32_BITS_ZERO, F32_BITS_ONE));
    assert(clamp_bounds(F32_BITS_0_1, F32_BITS_100));
    assert(clamp_bounds(F32_BITS_0_01, F32_BITS_100));
    assert(clamp_bounds(F32_BITS_20, F32_BITS_200));
    assert(clamp_bounds(F32_BITS_ONE, F32_BITS_50));
    assert(clamp_bounds(F32_BITS_ONE, F32_BITS_1000));
    assert(clamp_bounds(F32_BITS_ZERO, F32_BITS_FRAC_PI_2));
    assert(clamp_bounds(F32_BITS_0_1, F32_BITS_10));
    f32_clamp_idempotent(s.background_color[0], F32_BITS_ZERO, F32_BITS_ONE);
    f32_clamp_idempotent(s.background_color[1], F32_BITS_ZERO, F32_BITS_ONE);
    f32_clamp_idempotent(s.background_color[2], F32_BITS_ZERO, F32_BITS_ONE);
    f32_clamp_idempotent(s.grid_spacing, F32_BITS_0_1, F32_BITS_100);
    f32_clamp_idempotent(s.snap_size, F32_BITS_0_01, F32_BITS_100);
    f32_clamp_idempotent(s.gizmo_size, F32_BITS_20, F32_BITS_200);
    f32_clamp_idempotent(s.pick_radius, F32_BITS_ONE, F32_BITS_50);
    f32_clamp_idempotent(s.default_camera_distance, F32_BITS_ONE, F32_BITS_1000);
    f32_clamp_idempotent(s.default_camera_pitch_rad, F32_BITS_ZERO, F32_BITS_FRAC_PI_2);
    f32_clamp_idempotent(s.camera_speed, F32_BITS_0_1, F32_BITS_10);
    f32_clamp_idempotent(s.zoom_speed, F32_BITS_0_1, F32_BITS_10);
    let c = clamped(s);
    assert(clamped(c).background_color =~= c.background_color);
}

impl Default for EditorSettings {
    fn default() -> (s: Self)
        ensures
            s.is_default(),
    {
        Self::new()
    }
}

/// Settings dialog: visibility, the settings being edited and the open tab.
pub struct SettingsDialog {
    /// Whether the dialog window is open.
    pub visible: bool,
    /// The settings being edited.
    pub settings: EditorSettings,
    /// Currently active tab.
    pub active_tab: SettingsTab,
}

impl SettingsDialog {
    /// A closed dialog on the Rendering tab with default settings.
    pub fn new() -> (d: Self)
        ensures
            !d.visible,
            d.settings.is_default(),
            d.active_tab == SettingsTab::Rendering,
    {
        Self { visible: false, settings: EditorSettings::new(), active_tab: SettingsTab::Rendering }
    }

    /// The Apply button: clamp the edited settings.
    pub fn apply(&mut self)
        ensures
            final(self).visible == old(self).visible,
            final(self).active_tab == old(self).active_tab,
            final(self).settings == clamped(old(self).settings),
    {
        self.settings.apply_clamp();
    }

    /// The Reset to Defaults button.
    pub fn reset_to_defaults(&mut self)
        ensures
            final(self).visible == old(self).visible,
            final(self).active_tab == old(self).active_tab,
            final(self).settings.is_default(),
    {
        self.settings = EditorSettings::new();
    }
}

impl Default for SettingsDialog {
    fn default() -> (d: Self)
        ensures
            !d.visible,
            d.settings.is_default(),
            d.active_tab == SettingsTab::Rendering,
    {
        Self::new()
    }
}

} // verus!
