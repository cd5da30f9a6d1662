//! What the user has chosen for the renderer and its windows.

use vstd::prelude::*;

verus! {

/// The device code of unlit rendering.
pub const RENDER_TYPE_UNLIT: u32 = 0;

/// The device code of lit rendering.
pub const RENDER_TYPE_LIT: u32 = 1;

/// How a surface is shaded.
#[derive(Clone, Copy, Debug, PartialEq, Eq, Structural)]
pub enum RenderType {
    /// The checkered base colour as it is.
    Unlit,
    /// Emission and bounced light.
    Lit,
}

/// The render settings and the windows that are open.
#[derive(Clone, Copy, Debug, PartialEq, Eq, Structural)]
pub struct RenderSettings {
    pub info_window_open: bool,
    pub camera_window_open: bool,
    pub render_settings_window_open: bool,
    pub planes_window_open: bool,
    pub render_type: RenderType,
    pub antialiasing: bool,
    /// How many portals a ray may pass through.
    pub recursive_portal_count: u32,
    /// How many times light may bounce.
    pub max_bounces: u32,
}

impl RenderType {
    /// The code of this render type in the device's scene block.
    pub open spec fn code_of(self) -> u32 {
        match self {
            RenderType::Unlit => RENDER_TYPE_UNLIT,
            RenderType::Lit => RENDER_TYPE_LIT,
        }
    }

    /// The code of this render type in the device's scene block.
    pub fn code(&self) -> (r: u32)
        ensures
            r == self.code_of(),
    {
        match self {
            RenderType::Unlit => RENDER_TYPE_UNLIT,
            RenderType::Lit => RENDER_TYPE_LIT,
        }
    }
}

impl Default for RenderSettings {
    /// All windows open, unlit and antialiased, ten portals deep, three
    /// bounces.
    fn default() -> (r: Self)
        ensures
            r == (RenderSettings {
                info_window_open: true,
                camera_window_open: true,
                render_settings_window_open: true,
                planes_window_open: true,
                render_type: RenderType::Unlit,
                antialiasing: true,
                recursive_portal_count: 10,
                max_bounces: 3,
            }),
    {
        RenderSettings {
            info_window_open: true,
            camera_window_open: true,
            render_settings_window_open: true,
            planes_window_open: true,
            render_type: RenderType::Unlit,
            antialiasing: true,
            recursive_portal_count: 10,
            max_bounces: 3,
        }
    }
}

} // verus!
