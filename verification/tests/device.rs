use portals::device::{
    dispatch_size, grown_capacity, texture_needs_resize, GpuCamera, RayTracingPaintCallback, TILE,
};
use portals::plane::{GpuPlane, Plane};
use portals::scene::Scene;
use portals::settings::{RenderSettings, RenderType};
use portals::single::Single;
use portals::transform::Transform;

fn single(number: f32) -> Single {
    Single { bits: number.to_bits() }
}

fn camera_block() -> GpuCamera {
    Scene::default().gpu_camera(&RenderSettings::default())
}

fn records(count: usize) -> Vec<GpuPlane> {
    (0..count).map(|_| Plane::default().to_gpu(&Transform::identity())).collect()
}

#[test]
fn tiles_are_sixteen_pixels_wide() {
    assert_eq!(TILE, 16);
}

#[test]
fn dispatch_covers_the_image_with_whole_tiles() {
    assert_eq!(dispatch_size(1920, 1080), (120, 68));
    assert_eq!(dispatch_size(16, 32), (1, 2));
    assert_eq!(dispatch_size(17, 15), (2, 1));
    assert_eq!(dispatch_size(1, 1), (1, 1));
    assert_eq!(dispatch_size(0, 0), (0, 0));
    assert_eq!(dispatch_size(u32::MAX, u32::MAX - 15), (0x1000_0000, 0x0fff_ffff));
}

#[test]
fn a_frame_follows_the_settings() {
    let settings = RenderSettings::default();
    let frame = RayTracingPaintCallback::seeded(&settings, 800, 600, camera_block(), 7, records(3), 0xdead_beef);
    assert_eq!((frame.width, frame.height), (800, 600));
    assert_eq!(frame.camera, camera_block());
    assert_eq!(frame.accumulated_frames, 7);
    assert_eq!(frame.random_seed, 0xdead_beef);
    assert_eq!(frame.render_type, 0);
    assert!(frame.antialiasing);
    assert_eq!(frame.planes.len(), 3);
    let lit = RenderSettings { render_type: RenderType::Lit, antialiasing: false, ..settings };
    let other = RayTracingPaintCallback::seeded(&lit, 1, 1, camera_block(), 0, records(0), 1);
    assert_eq!(other.render_type, 1);
    assert!(!other.antialiasing);
}

#[test]
fn the_scene_block_follows_the_frame() {
    let settings = RenderSettings::default();
    let frame = RayTracingPaintCallback::seeded(&settings, 800, 600, camera_block(), 7, records(3), 42);
    let info = frame.scene_info();
    assert_eq!(info.camera, camera_block());
    assert_eq!(info.aspect, single(800.0 / 600.0));
    assert_eq!(info.accumulated_frames, 7);
    assert_eq!(info.random_seed, 42);
    assert_eq!(info.render_type, 0);
    assert_eq!(info.antialiasing, 1);
    assert_eq!(info.plane_count, 3);
    let lit = RenderSettings { render_type: RenderType::Lit, antialiasing: false, ..settings };
    let other = RayTracingPaintCallback::seeded(&lit, 1920, 1080, camera_block(), 0, records(0), 1);
    let info = other.scene_info();
    assert_eq!(info.aspect, single(1920.0 / 1080.0));
    assert_eq!(info.render_type, 1);
    assert_eq!(info.antialiasing, 0);
    assert_eq!(info.plane_count, 0);
}

#[test]
fn the_aspect_is_the_width_over_the_height_as_the_machine_divides() {
    let settings = RenderSettings::default();
    for (width, height) in [(1u32, 1u32), (3, 7), (1280, 720), (0, 5), (5, 0), (0, 0), (u32::MAX, 3), (16_777_217, 1)] {
        let frame = RayTracingPaintCallback::seeded(&settings, width, height, camera_block(), 0, records(0), 0);
        let aspect = f32::from_bits(frame.scene_info().aspect.bits);
        let expected = width as f32 / height as f32;
        if expected.is_nan() {
            assert!(aspect.is_nan());
        } else {
            assert_eq!(aspect.to_bits(), expected.to_bits(), "{width} / {height}");
        }
    }
}

#[test]
fn a_frame_with_a_drawn_seed_differs_only_in_the_seed() {
    let settings = RenderSettings::default();
    let drawn = RayTracingPaintCallback::new(&settings, 640, 480, camera_block(), 5, records(2));
    let given = RayTracingPaintCallback::seeded(&settings, 640, 480, camera_block(), 5, records(2), drawn.random_seed);
    assert_eq!(drawn.scene_info(), given.scene_info());
    assert_eq!(drawn.planes, given.planes);
    assert_eq!((drawn.width, drawn.height), (640, 480));
    assert_eq!(drawn.accumulated_frames, 5);
}

#[test]
fn drawn_seeds_vary() {
    let settings = RenderSettings::default();
    let first = RayTracingPaintCallback::new(&settings, 1, 1, camera_block(), 0, records(0)).random_seed;
    let mut varied = false;
    for _ in 0..64 {
        let next = RayTracingPaintCallback::new(&settings, 1, 1, camera_block(), 0, records(0));
        if next.random_seed != first {
            varied = true;
        }
    }
    assert!(varied);
}

#[test]
fn texture_is_remade_when_the_view_changes_size() {
    assert!(texture_needs_resize(1, 1, 800, 600));
    assert!(texture_needs_resize(800, 600, 800, 601));
    assert!(texture_needs_resize(800, 600, 801, 600));
    assert!(!texture_needs_resize(800, 600, 800, 600));
    let settings = RenderSettings::default();
    let frame = RayTracingPaintCallback::seeded(&settings, 800, 600, camera_block(), 0, records(0), 0);
    assert!(frame.needs_resize(1, 1));
    assert!(!frame.needs_resize(800, 600));
}

#[test]
fn texture_is_kept_for_an_empty_view() {
    assert!(!texture_needs_resize(800, 600, 0, 600));
    assert!(!texture_needs_resize(800, 600, 800, 0));
    assert!(!texture_needs_resize(1, 1, 0, 0));
    let settings = RenderSettings::default();
    let frame = RayTracingPaintCallback::seeded(&settings, 0, 600, camera_block(), 0, records(0), 0);
    assert!(!frame.needs_resize(800, 600));
}

#[test]
fn planes_buffer_only_grows() {
    assert_eq!(grown_capacity(96, 192), Some(192));
    assert_eq!(grown_capacity(192, 96), None);
    assert_eq!(grown_capacity(96, 96), None);
    assert_eq!(grown_capacity(0, 1), Some(1));
}
