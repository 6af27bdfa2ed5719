//! Viewport HDR / image-based environment settings.
//!
//! The `f32` settings are carried as their IEEE-754 bit patterns; nothing here computes with them.

use vstd::prelude::*;

verus! {

/// Built-in or custom environment source for the native viewport.
#[derive(Debug, Clone, Copy, PartialEq, Eq, Structural)]
pub enum ViewportEnvironmentPreset {
    /// Legacy flat gray clear color (no HDR).
    FlatGray,
    /// Soft studio gradient with warm key light, the default for smoke lookdev.
    StudioSoft,
    /// Higher-contrast studio with darker sides and bright overhead.
    StudioContrast,
    /// Loaded from `hdr_path` (.hdr / .exr / PNG / JPEG equirectangular).
    Custom,
}

impl Default for ViewportEnvironmentPreset {
    fn default() -> (p: Self)
        ensures
            p == ViewportEnvironmentPreset::StudioSoft,
    {
        ViewportEnvironmentPreset::StudioSoft
    }
}

/// Bit pattern of `1.0f32`.
pub const F32_ONE_BITS: u32 = 0x3f80_0000;
/// Bit pattern of `0.35f32`.
pub const F32_DEFAULT_BLUR_BITS: u32 = 0x3eb3_3333;

/// HDR / IBL settings for the native viewport preview.
#[derive(Debug, Clone, PartialEq, Eq)]
pub struct ViewportEnvironment {
    pub preset: ViewportEnvironmentPreset,
    /// Filesystem path when `preset` is `Custom`.
    pub hdr_path: Option<String>,
    /// Exposure multiplier applied to environment radiance (`f32` bits).
    pub intensity: u32,
    /// Y-axis rotation in degrees, yaw (`f32` bits).
    pub rotation_yaw_deg: u32,
    /// Diffuse environment blur, 0 = sharp and 1 = heavy blur (`f32` bits).
    pub diffuse_blur: u32,
    /// When false, rendering falls back to the flat gray clear color.
    pub enabled: bool,
}

impl Default for ViewportEnvironment {
    fn default() -> (e: Self)
        ensures
            e.preset == ViewportEnvironmentPreset::StudioSoft,
            e.hdr_path is None,
            e.intensity == F32_ONE_BITS,
            e.rotation_yaw_deg == 0,
            e.diffuse_blur == F32_DEFAULT_BLUR_BITS,
            e.enabled,
    {
        ViewportEnvironment {
            preset: ViewportEnvironmentPreset::StudioSoft,
            hdr_path: None,
            intensity: F32_ONE_BITS,
            rotation_yaw_deg: 0,
            diffuse_blur: F32_DEFAULT_BLUR_BITS,
            enabled: true,
        }
    }
}

impl ViewportEnvironment {
    /// Legacy flat-gray background matching the viewport before HDR environments.
    pub fn legacy_flat() -> (e: Self)
        ensures
            e.preset == ViewportEnvironmentPreset::FlatGray,
            e.hdr_path is None,
            e.intensity == F32_ONE_BITS,
            e.rotation_yaw_deg == 0,
            e.diffuse_blur == 0,
            !e.enabled,
    {
        ViewportEnvironment {
            preset: ViewportEnvironmentPreset::FlatGray,
            hdr_path: None,
            intensity: F32_ONE_BITS,
            rotation_yaw_deg: 0,
            diffuse_blur: 0,
            enabled: false,
        }
    }

    /// Effective environment for rendering: a disabled environment renders flat gray.
    pub fn effective_preset(&self) -> (p: ViewportEnvironmentPreset)
        ensures
            p == (if self.enabled { self.preset } else { ViewportEnvironmentPreset::FlatGray }),
    {
        if !self.enabled {
            ViewportEnvironmentPreset::FlatGray
        } else {
            self.preset
        }
    }
}

} // verus!
