use portals::plane::Plane;
use portals::ray::{Hit, Ray};
use portals::scene::{add_plane, connect};
use portals::single::Single;
use portals::transform::Transform;
use portals::traversal::{closest_hit, crossing, find_hop, intersect_all, Hop};
use portals::vector3::Vector3;

fn single(number: f32) -> Single {
    Single { bits: number.to_bits() }
}

fn vector(c: [f32; 3]) -> Vector3 {
    Vector3 { x: single(c[0]), y: single(c[1]), z: single(c[2]) }
}

fn hit_at(distance: f32, front: bool) -> Option<Hit> {
    Some(Hit {
        distance: single(distance),
        position: vector([0.0, 0.0, 0.0]),
        normal: vector([0.0, 1.0, 0.0]),
        front,
    })
}

fn hit(distance: f32, front: bool) -> Hit {
    hit_at(distance, front).unwrap()
}

fn two_planes() -> Vec<Plane> {
    let mut planes = Vec::new();
    add_plane(&mut planes, Plane::default());
    add_plane(&mut planes, Plane::default());
    planes
}

/// Two unit planes facing up, the first at the origin, the second shifted by
/// `offset`.
fn two_transforms(offset: [f32; 3]) -> Vec<Transform> {
    vec![Transform::identity(), Transform::translation(&vector(offset))]
}

#[test]
fn a_ray_is_met_with_every_plane() {
    let planes = two_planes();
    let transforms = two_transforms([5.0, 0.0, 0.0]);
    let down = Ray { origin: vector([5.0, 2.0, 0.0]), direction: vector([0.0, -1.0, 0.0]) };
    let hits = intersect_all(&planes, &transforms, &down);
    assert_eq!(hits.len(), 2);
    assert_eq!(hits[0], None);
    let found = hits[1].unwrap();
    assert_eq!(found.distance, single(2.0));
    assert!(found.front);
    assert_eq!(found.position, vector([5.0, 0.0, 0.0]));
    assert_eq!(hits[1], planes[1].intersect(&transforms[1], &down));
}

#[test]
fn a_plane_without_a_transform_is_not_met() {
    let planes = two_planes();
    let down = Ray { origin: vector([0.0, 2.0, 0.0]), direction: vector([0.0, -1.0, 0.0]) };
    let hits = intersect_all(&planes, &vec![Transform::identity()], &down);
    assert_eq!(hits.len(), 2);
    assert!(hits[0].is_some());
    assert_eq!(hits[1], None);
    let none = intersect_all(&planes, &Vec::new(), &down);
    assert_eq!(none, vec![None, None]);
}

#[test]
fn closest_hit_of_no_hits_is_none() {
    assert_eq!(closest_hit(&Vec::new()), None);
    assert_eq!(closest_hit(&vec![None, None, None]), None);
}

#[test]
fn closest_hit_picks_the_smallest_distance() {
    let hits = vec![hit_at(3.0, true), None, hit_at(0.5, false), hit_at(2.0, true)];
    assert_eq!(closest_hit(&hits), Some((2, hit(0.5, false))));
}

#[test]
fn closest_hit_keeps_the_first_of_equals() {
    let hits = vec![None, hit_at(7.0, false), hit_at(7.0, true)];
    assert_eq!(closest_hit(&hits), Some((1, hit(7.0, false))));
}

#[test]
fn a_hit_that_is_no_number_holds_its_place_and_takes_none() {
    let first = vec![hit_at(f32::NAN, true), hit_at(1.0, false)];
    assert_eq!(closest_hit(&first), Some((0, hit(f32::NAN, true))));
    let later = vec![hit_at(1.0, false), hit_at(f32::NAN, true)];
    assert_eq!(closest_hit(&later), Some((0, hit(1.0, false))));
}

#[test]
fn a_step_through_a_linked_front_crosses() {
    let mut planes = two_planes();
    assert!(connect(&mut planes, 0, true, Some(1)));
    let hits = vec![hit_at(0.5, true), None];
    assert_eq!(crossing(&planes, &hits, single(1.0)), Some(Hop { source: 0, target: 1 }));
}

#[test]
fn paired_portals_hop_there_and_back() {
    let mut planes = two_planes();
    assert!(connect(&mut planes, 0, true, Some(1)));
    assert!(connect(&mut planes, 1, false, Some(0)));
    assert!(connect(&mut planes, 1, true, Some(0)));
    assert!(connect(&mut planes, 0, false, Some(1)));
    let down_through_a = vec![hit_at(0.25, true), None];
    assert_eq!(crossing(&planes, &down_through_a, single(0.5)), Some(Hop { source: 0, target: 1 }));
    let up_through_b = vec![None, hit_at(0.25, false)];
    assert_eq!(crossing(&planes, &up_through_b, single(0.5)), Some(Hop { source: 1, target: 0 }));
}

#[test]
fn a_step_that_stops_short_does_not_hop() {
    let mut planes = two_planes();
    assert!(connect(&mut planes, 0, true, Some(1)));
    let hits = vec![hit_at(0.5, true), None];
    assert_eq!(crossing(&planes, &hits, single(0.25)), None);
    assert_eq!(crossing(&planes, &hits, single(0.5)), None);
    assert_eq!(crossing(&planes, &hits, single(0.0)), None);
}

#[test]
fn a_camera_in_place_does_not_hop() {
    let mut planes = two_planes();
    assert!(connect(&mut planes, 0, true, Some(1)));
    let hits = vec![hit_at(0.0, true), None];
    assert_eq!(crossing(&planes, &hits, single(0.0)), None);
    let here = vector([0.0, 0.5, 0.0]);
    assert_eq!(find_hop(&planes, &two_transforms([5.0, 0.0, 0.0]), &here, &here), None);
}

#[test]
fn a_step_of_no_length_that_is_a_number_does_not_hop() {
    let mut planes = two_planes();
    assert!(connect(&mut planes, 0, true, Some(1)));
    let hits = vec![hit_at(0.5, true), None];
    assert_eq!(crossing(&planes, &hits, single(f32::NAN)), None);
    let undefined = vec![hit_at(f32::NAN, true), None];
    assert_eq!(crossing(&planes, &undefined, single(1.0)), None);
}

#[test]
fn an_unlinked_side_does_not_hop() {
    let mut planes = two_planes();
    assert!(connect(&mut planes, 0, true, Some(1)));
    let from_behind = vec![hit_at(1.0, false), None];
    assert_eq!(crossing(&planes, &from_behind, single(10.0)), None);
    let other_plane = vec![None, hit_at(1.0, true)];
    assert_eq!(crossing(&planes, &other_plane, single(10.0)), None);
}

#[test]
fn only_the_nearest_hit_decides() {
    let mut planes = two_planes();
    assert!(connect(&mut planes, 1, true, Some(0)));
    let hits = vec![hit_at(1.0, true), hit_at(2.0, true)];
    assert_eq!(crossing(&planes, &hits, single(10.0)), None);
    let swapped = vec![hit_at(2.0, true), hit_at(1.0, true)];
    assert_eq!(crossing(&planes, &swapped, single(10.0)), Some(Hop { source: 1, target: 0 }));
}

#[test]
fn a_self_linked_portal_hops_onto_itself() {
    let mut planes = two_planes();
    assert!(connect(&mut planes, 1, false, Some(1)));
    let hits = vec![None, hit_at(3.0, false)];
    assert_eq!(crossing(&planes, &hits, single(4.0)), Some(Hop { source: 1, target: 1 }));
}

#[test]
fn a_dangling_link_does_not_hop() {
    let mut planes = two_planes();
    planes[0].front_portal.other_index = Some(2);
    let hits = vec![hit_at(1.0, true), None];
    assert_eq!(crossing(&planes, &hits, single(10.0)), None);
}

#[test]
fn a_hit_without_a_plane_does_not_hop() {
    let planes = two_planes();
    let hits = vec![None, None, hit_at(1.0, true)];
    assert_eq!(crossing(&planes, &hits, single(10.0)), None);
    let none: Vec<Option<Hit>> = Vec::new();
    assert_eq!(crossing(&planes, &none, single(10.0)), None);
}

#[test]
fn stepping_down_through_a_linked_front_hops() {
    let mut planes = two_planes();
    assert!(connect(&mut planes, 0, true, Some(1)));
    let transforms = two_transforms([3.0, 4.0, 5.0]);
    let hop = find_hop(&planes, &transforms, &vector([0.0, 0.5, 0.0]), &vector([0.0, -0.5, 0.0]));
    assert_eq!(hop, Some(Hop { source: 0, target: 1 }));
}

#[test]
fn stepping_up_through_an_unlinked_back_does_not_hop() {
    let mut planes = two_planes();
    assert!(connect(&mut planes, 0, true, Some(1)));
    let transforms = two_transforms([3.0, 4.0, 5.0]);
    let hop = find_hop(&planes, &transforms, &vector([0.0, -0.5, 0.0]), &vector([0.0, 0.5, 0.0]));
    assert_eq!(hop, None);
}

#[test]
fn stepping_beside_the_plane_does_not_hop() {
    let mut planes = two_planes();
    assert!(connect(&mut planes, 0, true, Some(1)));
    let transforms = two_transforms([3.0, 4.0, 5.0]);
    let hop = find_hop(&planes, &transforms, &vector([2.0, 0.5, 0.0]), &vector([2.0, -0.5, 0.0]));
    assert_eq!(hop, None);
    let short = find_hop(&planes, &transforms, &vector([0.0, 0.5, 0.0]), &vector([0.0, 0.25, 0.0]));
    assert_eq!(short, None);
}

#[test]
fn a_target_without_a_transform_is_no_hop() {
    let mut planes = two_planes();
    assert!(connect(&mut planes, 0, true, Some(1)));
    let transforms = vec![Transform::identity()];
    let hop = find_hop(&planes, &transforms, &vector([0.0, 0.5, 0.0]), &vector([0.0, -0.5, 0.0]));
    assert_eq!(hop, None);
}

#[test]
fn walking_down_through_paired_planes_goes_round() {
    let mut planes = two_planes();
    assert!(connect(&mut planes, 0, true, Some(1)));
    assert!(connect(&mut planes, 1, false, Some(0)));
    assert!(connect(&mut planes, 1, true, Some(0)));
    assert!(connect(&mut planes, 0, false, Some(1)));
    let transforms = two_transforms([5.0, 0.0, 0.0]);
    let through_a = find_hop(&planes, &transforms, &vector([0.0, 0.5, 0.0]), &vector([0.0, -0.5, 0.0]));
    assert_eq!(through_a, Some(Hop { source: 0, target: 1 }));
    let through_b = find_hop(&planes, &transforms, &vector([5.0, 0.5, 0.0]), &vector([5.0, -0.5, 0.0]));
    assert_eq!(through_b, Some(Hop { source: 1, target: 0 }));
}
