//! What the host decides before it hands a frame to the device: the integer
//! words of the scene block, the size of the dispatch, and when a texture or
//! a buffer has to be made anew.

use vstd::prelude::*;
use crate::color::Color;
use crate::plane::GpuPlane;
use crate::portal::low_word;
use crate::settings::RenderSettings;
use crate::single::Single;
use crate::transform::Transform;
use crate::vector3::Vector3;

verus! {

/// The edge of the square tile of pixels that one workgroup renders.
pub const TILE: u32 = 16;

/// The camera block of the device: where the camera stands and looks, the
/// sky and the sun, and the bounds of the trace.
#[derive(Clone, Copy, Debug, PartialEq, Eq, Structural)]
pub struct GpuCamera {
    pub transform: Transform,
    pub up_sky_color: Color,
    pub down_sky_color: Color,
    pub sun_color: Color,
    pub sun_direction: Vector3,
    pub sun_size: Single,
    /// How many portals a ray may pass through.
    pub recursive_portal_count: u32,
    /// How many times light may bounce.
    pub max_bounces: u32,
}

/// The scene block that the device reads each frame.
#[derive(Clone, Copy, Debug, PartialEq, Eq, Structural)]
pub struct GpuSceneInfo {
    pub camera: GpuCamera,
    /// The width of the image over its height.
    pub aspect: Single,
    /// How many frames the accumulated image holds before this one.
    pub accumulated_frames: u32,
    /// Seeds the per-pixel generator of this frame.
    pub random_seed: u32,
    /// `RENDER_TYPE_UNLIT` or `RENDER_TYPE_LIT`.
    pub render_type: u32,
    /// One where rays are jittered within their pixel, else zero.
    pub antialiasing: u32,
    pub plane_count: u32,
}

/// What one frame hands to the device.
#[derive(Debug)]
pub struct RayTracingPaintCallback {
    /// The width of the view in pixels.
    pub width: u32,
    /// The height of the view in pixels.
    pub height: u32,
    pub camera: GpuCamera,
    pub accumulated_frames: u32,
    pub random_seed: u32,
    pub render_type: u32,
    pub antialiasing: bool,
    pub planes: Vec<GpuPlane>,
}

/// What a frame hands to the device for the given settings, view, camera
/// block, frame count, plane records and seed.
pub open spec fn callback_of(
    settings: RenderSettings,
    width: u32,
    height: u32,
    camera: GpuCamera,
    accumulated_frames: u32,
    planes: Vec<GpuPlane>,
    random_seed: u32,
) -> RayTracingPaintCallback {
    RayTracingPaintCallback {
        width,
        height,
        camera,
        accumulated_frames,
        random_seed,
        render_type: settings.render_type.code_of(),
        antialiasing: settings.antialiasing,
        planes,
    }
}

/// Draws a seed with `rand::random`, which takes it from the generator that
/// the `rand` crate keeps for each thread. Nothing is claimed of the value.
/// The generator is seeded from the operating system when a thread first
/// uses it, and the call panics there if the system gives no seed.
#[verifier::external_body]
fn fresh_seed() -> u32 {
    rand::random()
}

impl RayTracingPaintCallback {
    /// The scene block of this frame: the aspect is the width over the
    /// height, the antialiasing flag becomes one or zero, and the number of
    /// planes is reduced to 32 bits.
    pub open spec fn scene_block(self) -> GpuSceneInfo {
        GpuSceneInfo {
            camera: self.camera,
            aspect: Single::of_count(self.width).quotient(Single::of_count(self.height)),
            accumulated_frames: self.accumulated_frames,
            random_seed: self.random_seed,
            render_type: self.render_type,
            antialiasing: if self.antialiasing {
                1
            } else {
                0
            },
            plane_count: ((self.planes@.len() as int) % 0x1_0000_0000) as u32,
        }
    }

    /// Puts together what a frame hands to the device, around a given seed.
    pub fn seeded(
        settings: &RenderSettings,
        width: u32,
        height: u32,
        camera: GpuCamera,
        accumulated_frames: u32,
        planes: Vec<GpuPlane>,
        random_seed: u32,
    ) -> (r: RayTracingPaintCallback)
        ensures
            r == callback_of(
                *settings,
                width,
                height,
                camera,
                accumulated_frames,
                planes,
                random_seed,
            ),
    {
        RayTracingPaintCallback {
            width,
            height,
            camera,
            accumulated_frames,
            random_seed,
            render_type: settings.render_type.code(),
            antialiasing: settings.antialiasing,
            planes,
        }
    }

    /// Puts together what a frame hands to the device, around a freshly
    /// drawn seed. All of it but the seed follows from the arguments.
    pub fn new(
        settings: &RenderSettings,
        width: u32,
        height: u32,
        camera: GpuCamera,
        accumulated_frames: u32,
        planes: Vec<GpuPlane>,
    ) -> (r: RayTracingPaintCallback)
        ensures
            r == callback_of(
                *settings,
                width,
                height,
                camera,
                accumulated_frames,
                planes,
                r.random_seed,
            ),
    {
        let seed = fresh_seed();
        RayTracingPaintCallback::seeded(
            settings,
            width,
            height,
            camera,
            accumulated_frames,
            planes,
            seed,
        )
    }

    /// The scene block of this frame.
    pub fn scene_info(&self) -> (r: GpuSceneInfo)
        ensures
            r == self.scene_block(),
    {
        GpuSceneInfo {
            camera: self.camera,
            aspect: Single::from_count(self.width).over(&Single::from_count(self.height)),
            accumulated_frames: self.accumulated_frames,
            random_seed: self.random_seed,
            render_type: self.render_type,
            antialiasing: if self.antialiasing {
                1
            } else {
                0
            },
            plane_count: low_word(self.planes.len()),
        }
    }

    /// Whether the accumulation texture has to be made anew for this frame:
    /// when the view is not empty and its size is not the texture's.
    pub fn needs_resize(&self, texture_width: u32, texture_height: u32) -> (r: bool)
        ensures
            r == (self.width > 0 && self.height > 0 && (texture_width != self.width
                || texture_height != self.height)),
    {
        texture_needs_resize(texture_width, texture_height, self.width, self.height)
    }
}

/// The least number of tiles that cover `pixels` pixels along one axis.
pub open spec fn tiles_of(pixels: u32) -> int {
    (pixels + TILE - 1) / (TILE as int)
}

fn tiles(pixels: u32) -> (r: u32)
    ensures
        r == tiles_of(pixels),
        r * TILE >= pixels,
        r * TILE < pixels + TILE,
{
    if pixels % TILE == 0 {
        pixels / TILE
    } else {
        pixels / TILE + 1
    }
}

/// The number of workgroups along each axis for an image of `width` by
/// `height` pixels: the least that cover it with one thread per pixel.
pub fn dispatch_size(width: u32, height: u32) -> (r: (u32, u32))
    ensures
        r.0 == tiles_of(width),
        r.1 == tiles_of(height),
        r.0 * TILE >= width && r.0 * TILE < width + TILE,
        r.1 * TILE >= height && r.1 * TILE < height + TILE,
{
    (tiles(width), tiles(height))
}

/// Whether the accumulation texture has to be made anew for a view of
/// `width` by `height` pixels: when the view is not empty and its size is
/// not the texture's.
pub fn texture_needs_resize(
    texture_width: u32,
    texture_height: u32,
    width: u32,
    height: u32,
) -> (r: bool)
    ensures
        r == (width > 0 && height > 0 && (texture_width != width || texture_height != height)),
{
    width > 0 && height > 0 && (texture_width != width || texture_height != height)
}

/// The capacity of the planes buffer after a frame that needs `needed`
/// bytes: a buffer that is too small is made anew at the size needed, one
/// that is large enough is kept.
pub open spec fn capacity_after(capacity: u64, needed: u64) -> u64 {
    if needed > capacity {
        needed
    } else {
        capacity
    }
}

/// The size at which the planes buffer has to be made anew to hold `needed`
/// bytes, or `None` where its `capacity` is enough. The buffer never
/// shrinks.
pub fn grown_capacity(capacity: u64, needed: u64) -> (r: Option<u64>)
    ensures
        r is Some <==> needed > capacity,
        r matches Some(size) ==> size == capacity_after(capacity, needed),
        capacity_after(capacity, needed) >= capacity,
        capacity_after(capacity, needed) >= needed,
{
    if needed > capacity {
        Some(needed)
    } else {
        None
    }
}

} // verus!
