use portals::color::Color;
use portals::plane::Plane;
use portals::portal::PortalConnection;
use portals::rotor::Rotor;
use portals::scene::{add_plane, connect, pack_planes, remove_plane, remove_planes, Scene};
use portals::settings::RenderSettings;
use portals::single::Single;
use portals::transform::Transform;
use portals::vector3::Vector3;

fn single(number: f32) -> Single {
    Single { bits: number.to_bits() }
}

fn number(single: Single) -> f32 {
    f32::from_bits(single.bits)
}

fn numbers(v: Vector3) -> [f32; 3] {
    [number(v.x), number(v.y), number(v.z)]
}

fn parts(c: Color) -> [f32; 3] {
    [number(c.r), number(c.g), number(c.b)]
}

fn link(index: usize) -> PortalConnection {
    PortalConnection { other_index: Some(index), flip: false }
}

fn absent() -> PortalConnection {
    PortalConnection { other_index: None, flip: false }
}

fn plane(name: &str) -> Plane {
    let mut plane = Plane::default();
    plane.name = name.to_owned();
    plane
}

fn named(names: &[&'static str]) -> Vec<Plane> {
    let mut planes = Vec::new();
    for name in names {
        add_plane(&mut planes, plane(name));
    }
    planes
}

fn links_whole(planes: &Vec<Plane>) -> bool {
    planes.iter().all(|p| {
        p.front_portal.other_index.map_or(true, |k| k < planes.len())
            && p.back_portal.other_index.map_or(true, |k| k < planes.len())
    })
}

#[test]
fn add_plane_appends_an_unlinked_plane() {
    let mut planes: Vec<Plane> = Vec::new();
    assert_eq!(add_plane(&mut planes, plane("A")), 0);
    let mut linked = plane("B");
    linked.front_portal = PortalConnection { other_index: Some(7), flip: true };
    linked.back_portal = link(0);
    linked.checker_count_x = 3;
    assert_eq!(add_plane(&mut planes, linked), 1);
    assert_eq!(planes.len(), 2);
    assert_eq!(planes[1].name, "B");
    assert_eq!(planes[1].checker_count_x, 3);
    assert_eq!(planes[1].checker_count_z, 1);
    assert_eq!(planes[1].front_portal, PortalConnection { other_index: None, flip: true });
    assert_eq!(planes[1].back_portal, absent());
    assert_eq!(planes[0].name, "A");
    assert!(links_whole(&planes));
}

#[test]
fn connect_sets_the_chosen_side() {
    let mut planes = named(&["A", "B"]);
    planes[0].front_portal.flip = true;
    assert!(connect(&mut planes, 0, true, Some(1)));
    assert_eq!(planes[0].front_portal, PortalConnection { other_index: Some(1), flip: true });
    assert_eq!(planes[0].back_portal, absent());
    assert!(connect(&mut planes, 1, false, Some(1)));
    assert_eq!(planes[1].back_portal, link(1));
    assert_eq!(planes[1].front_portal, absent());
    assert!(connect(&mut planes, 0, true, None));
    assert_eq!(planes[0].front_portal, PortalConnection { other_index: None, flip: true });
}

#[test]
fn connect_refuses_what_names_no_plane() {
    let mut planes = named(&["A", "B"]);
    assert!(connect(&mut planes, 0, true, Some(1)));
    assert!(!connect(&mut planes, 0, true, Some(2)));
    assert_eq!(planes[0].front_portal, link(1));
    assert!(!connect(&mut planes, 2, false, Some(0)));
    assert!(!connect(&mut planes, 2, false, None));
    assert_eq!(planes[1].back_portal, absent());
    assert!(links_whole(&planes));
}

#[test]
fn deleting_the_middle_plane_repairs_the_links() {
    let mut planes = named(&["A", "B", "C"]);
    assert!(connect(&mut planes, 2, true, Some(1)));
    assert!(connect(&mut planes, 0, true, Some(2)));
    let removed = remove_plane(&mut planes, 1);
    assert_eq!(removed.map(|p| p.name), Some("B".to_owned()));
    assert_eq!(planes.len(), 2);
    assert_eq!(planes[0].name, "A");
    assert_eq!(planes[1].name, "C");
    assert_eq!(planes[1].front_portal.other_index, None);
    assert_eq!(planes[0].front_portal.other_index, Some(1));
    assert!(links_whole(&planes));
}

#[test]
fn deleting_cuts_the_back_link_that_led_to_the_plane() {
    let mut planes = named(&["A", "B", "C"]);
    assert!(connect(&mut planes, 0, true, Some(2)));
    assert!(connect(&mut planes, 0, false, Some(1)));
    planes[0].back_portal.flip = true;
    remove_plane(&mut planes, 1);
    assert_eq!(planes[0].front_portal, link(1));
    assert_eq!(planes[0].back_portal, PortalConnection { other_index: None, flip: true });
}

#[test]
fn deleting_shifts_links_of_earlier_and_later_planes_alike() {
    let mut planes = named(&["A", "B", "C", "D"]);
    assert!(connect(&mut planes, 0, true, Some(3)));
    assert!(connect(&mut planes, 3, false, Some(2)));
    assert!(connect(&mut planes, 2, true, Some(0)));
    assert!(connect(&mut planes, 3, true, Some(3)));
    remove_plane(&mut planes, 1);
    assert_eq!(planes.len(), 3);
    assert_eq!(planes[0].front_portal, link(2));
    assert_eq!(planes[2].back_portal, link(1));
    assert_eq!(planes[1].front_portal, link(0));
    assert_eq!(planes[2].front_portal, link(2));
    assert_eq!(planes[2].name, "D");
}

#[test]
fn deleting_a_self_linked_plane_leaves_no_trace() {
    let mut planes = named(&["A", "B"]);
    assert!(connect(&mut planes, 1, true, Some(1)));
    assert!(connect(&mut planes, 0, false, Some(1)));
    remove_plane(&mut planes, 1);
    assert_eq!(planes.len(), 1);
    assert_eq!(planes[0].back_portal, absent());
    assert!(links_whole(&planes));
}

#[test]
fn deleting_keeps_counts_and_payload() {
    let mut planes = named(&["A", "B"]);
    planes[1].checker_count_x = 10;
    planes[1].checker_count_z = 7;
    remove_plane(&mut planes, 0);
    assert_eq!(planes[0].name, "B");
    assert_eq!(planes[0].checker_count_x, 10);
    assert_eq!(planes[0].checker_count_z, 7);
}

#[test]
fn deleting_out_of_range_changes_nothing() {
    let mut planes = named(&["A", "B"]);
    assert!(connect(&mut planes, 0, true, Some(1)));
    assert!(remove_plane(&mut planes, 2).is_none());
    assert_eq!(planes.len(), 2);
    assert_eq!(planes[0].front_portal, link(1));
    let mut empty: Vec<Plane> = Vec::new();
    assert!(remove_plane(&mut empty, 0).is_none());
    assert!(empty.is_empty());
}

#[test]
fn deleting_several_planes_goes_from_the_last_index_down() {
    let mut planes = named(&["A", "B", "C", "D", "E"]);
    assert!(connect(&mut planes, 0, true, Some(4)));
    assert!(connect(&mut planes, 0, false, Some(3)));
    assert!(connect(&mut planes, 4, true, Some(2)));
    assert!(connect(&mut planes, 2, false, Some(1)));
    remove_planes(&mut planes, &vec![1, 3]);
    let names: Vec<&str> = planes.iter().map(|p| p.name.as_str()).collect();
    assert_eq!(names, vec!["A", "C", "E"]);
    assert_eq!(planes[0].front_portal, link(2));
    assert_eq!(planes[0].back_portal, absent());
    assert_eq!(planes[2].front_portal, link(1));
    assert_eq!(planes[1].back_portal, absent());
    assert!(links_whole(&planes));
}

#[test]
fn deleting_several_planes_equals_deleting_one_by_one() {
    let build = || {
        let mut planes = named(&["A", "B", "C", "D"]);
        assert!(connect(&mut planes, 0, true, Some(3)));
        assert!(connect(&mut planes, 1, false, Some(2)));
        assert!(connect(&mut planes, 3, true, Some(0)));
        planes
    };
    let mut at_once = build();
    remove_planes(&mut at_once, &vec![0, 2]);
    let mut stepwise = build();
    remove_plane(&mut stepwise, 2);
    remove_plane(&mut stepwise, 0);
    assert_eq!(at_once.len(), stepwise.len());
    for (a, b) in at_once.iter().zip(stepwise.iter()) {
        assert_eq!(a.name, b.name);
        assert_eq!(a.front_portal, b.front_portal);
        assert_eq!(a.back_portal, b.back_portal);
    }
}

#[test]
fn deleting_nothing_changes_nothing() {
    let mut planes = named(&["A", "B"]);
    assert!(connect(&mut planes, 0, true, Some(1)));
    remove_planes(&mut planes, &Vec::new());
    assert_eq!(planes.len(), 2);
    assert_eq!(planes[0].front_portal, link(1));
}

#[test]
fn default_scene() {
    let scene = Scene::default();
    assert_eq!(numbers(scene.camera.position), [0.0, 1.1, 0.0]);
    assert_eq!(scene.camera.rotation, Rotor::identity());
    assert_eq!(number(scene.camera.speed), 2.0);
    assert_eq!(number(scene.camera.rotation_speed), 0.25);
    assert_eq!(parts(scene.up_sky_color), [0.4, 0.5, 0.8]);
    assert_eq!(number(scene.up_sky_intensity), 1.0);
    assert_eq!(parts(scene.down_sky_color), [0.4, 0.4, 0.4]);
    assert_eq!(number(scene.down_sky_intensity), 1.0);
    assert_eq!(parts(scene.sun_color), [1.0, 1.0, 1.0]);
    assert_eq!(number(scene.sun_intensity), 100.0);
    assert_eq!(numbers(scene.sun_direction), [0.4, 1.0, 0.2]);
    assert_eq!(scene.sun_size, single(6.0f32.to_radians()));
    assert_eq!(scene.planes.len(), 1);
    let ground = &scene.planes[0];
    assert_eq!(ground.name, "Ground");
    assert_eq!(numbers(ground.position), [0.0, 0.0, 0.0]);
    assert_eq!((number(ground.width), number(ground.height)), (10.0, 10.0));
    assert_eq!((ground.checker_count_x, ground.checker_count_z), (10, 10));
    assert_eq!(parts(ground.color), [1.0, 0.0, 0.0]);
    assert_eq!(number(ground.checker_darkness), 0.5);
    assert_eq!(parts(ground.emissive_color), [0.0, 0.0, 0.0]);
    assert_eq!(number(ground.emission_intensity), 0.0);
    assert_eq!(number(ground.emissive_checker_darkness), 0.5);
    assert_eq!(ground.front_portal, absent());
    assert_eq!(ground.back_portal, absent());
}

#[test]
fn camera_block_of_the_default_scene() {
    let scene = Scene::default();
    let block = scene.gpu_camera(&RenderSettings::default());
    assert_eq!(block.transform, scene.camera.transform());
    assert_eq!(parts(block.up_sky_color), [0.4, 0.5, 0.8]);
    assert_eq!(parts(block.down_sky_color), [0.4, 0.4, 0.4]);
    assert_eq!(parts(block.sun_color), [100.0, 100.0, 100.0]);
    let length = (0.4f32 * 0.4 + 1.0 * 1.0 + 0.2 * 0.2).sqrt();
    let scale = length.recip();
    assert_eq!(numbers(block.sun_direction), [0.4 * scale, 1.0 * scale, 0.2 * scale]);
    assert_eq!(block.sun_size, scene.sun_size);
    assert_eq!(block.recursive_portal_count, 10);
    assert_eq!(block.max_bounces, 3);
}

#[test]
fn camera_block_scales_the_colours_by_their_intensities() {
    let mut scene = Scene::default();
    scene.up_sky_intensity = single(2.0);
    scene.down_sky_intensity = single(0.5);
    scene.sun_intensity = single(3.0);
    scene.sun_color = Color { r: single(1.0), g: single(0.5), b: single(0.25) };
    let settings = RenderSettings { recursive_portal_count: 4, max_bounces: 7, ..RenderSettings::default() };
    let block = scene.gpu_camera(&settings);
    assert_eq!(parts(block.up_sky_color), [0.4 * 2.0, 0.5 * 2.0, 0.8 * 2.0]);
    assert_eq!(parts(block.down_sky_color), [0.4 * 0.5, 0.4 * 0.5, 0.4 * 0.5]);
    assert_eq!(parts(block.sun_color), [3.0, 1.5, 0.75]);
    assert_eq!((block.recursive_portal_count, block.max_bounces), (4, 7));
}

#[test]
fn planes_are_packed_in_their_order() {
    let mut planes = named(&["A", "B"]);
    assert!(connect(&mut planes, 0, true, Some(1)));
    planes[1].checker_count_x = 5;
    let shift = Transform::translation(&Vector3 { x: single(1.0), y: single(2.0), z: single(3.0) });
    let records = pack_planes(&planes, &vec![Transform::identity(), shift]);
    assert_eq!(records.len(), 2);
    assert_eq!(records[0].transform, Transform::identity());
    assert_eq!(records[0].front_portal.other_index, 1);
    assert_eq!(records[0].back_portal.other_index, u32::MAX);
    assert_eq!(records[1].transform, shift);
    assert_eq!(records[1].checker_count_x, 5);
    assert_eq!(pack_planes(&planes, &vec![shift]).len(), 1);
    assert_eq!(pack_planes(&planes, &Vec::new()).len(), 0);
}
