//! A plane of the scene: a rectangle in the XZ plane of its own frame, with
//! a checker pattern and a portal on each side.

use vstd::prelude::*;
use crate::color::Color;
use crate::limits::{grazes, grazing, ZERO};
use crate::portal::{GpuPortalConnection, PortalConnection};
use crate::ray::{Hit, Ray};
use crate::rotor::{Rotor, HALF};
use crate::single::{Sign, Single};
use crate::transform::Transform;
use crate::vector3::{Vector3, ONE};

verus! {

/// The pattern of minus one half.
pub const MINUS_HALF: u32 = 0xbf00_0000;

/// A rectangular plane with a portal on each side.
///
/// The plane lies at `position`, turned by its three angles: in the XY
/// plane first, then in the YZ plane, then in the XZ plane. Its width runs
/// along its own X axis and its height along its own Z axis. The checker
/// counts give the number of cells of the pattern along each of the two;
/// the darker cells have the colour scaled by one less the darkness.
#[derive(Debug)]
pub struct Plane {
    pub name: String,
    pub position: Vector3,
    pub xy_rotation: Single,
    pub yz_rotation: Single,
    pub xz_rotation: Single,
    pub color: Color,
    pub width: Single,
    pub height: Single,
    pub checker_count_x: u32,
    pub checker_count_z: u32,
    pub checker_darkness: Single,
    pub emissive_color: Color,
    pub emission_intensity: Single,
    pub emissive_checker_darkness: Single,
    pub front_portal: PortalConnection,
    pub back_portal: PortalConnection,
}

/// The device record of a plane.
#[derive(Clone, Copy, Debug, PartialEq, Eq, Structural)]
pub struct GpuPlane {
    pub transform: Transform,
    pub width: Single,
    pub height: Single,
    pub checker_count_x: u32,
    pub checker_count_z: u32,
    pub color: Color,
    pub checker_darkness: Single,
    pub emissive_color: Color,
    pub emissive_checker_darkness: Single,
    pub front_portal: GpuPortalConnection,
    pub back_portal: GpuPortalConnection,
}

/// A ray in the local frame of a plane, with the point where it meets the
/// plane's level and the rectangle's edges.
#[derive(Clone, Copy, Debug, PartialEq, Eq, Structural)]
pub struct Probe {
    /// The height of the ray's origin above the plane.
    pub origin_height: Single,
    /// The height component of the ray's direction.
    pub direction_height: Single,
    /// Where the ray meets the plane's level, along the plane's width.
    pub impact_x: Single,
    /// Where the ray meets the plane's level, along the plane's height.
    pub impact_z: Single,
    /// The rectangle's lower edge along its width: minus half the width.
    pub min_x: Single,
    /// The rectangle's upper edge along its width: half the width.
    pub max_x: Single,
    /// The rectangle's lower edge along its height: minus half the height.
    pub min_z: Single,
    /// The rectangle's upper edge along its height: half the height.
    pub max_z: Single,
}

/// `count`, raised to one where it is zero.
pub open spec fn at_least_one(count: u32) -> u32 {
    if count == 0 {
        1
    } else {
        count
    }
}

impl Probe {
    /// The ray points away from the plane: the origin's height and the
    /// direction's height component have the same sign.
    pub open spec fn points_away(self) -> bool {
        self.origin_height.sign_of() == self.direction_height.sign_of()
            && self.origin_height.sign_of() != Sign::Undefined
    }

    /// The ray runs along the plane: the absolute value of the direction's
    /// height component is below the grazing tolerance.
    pub open spec fn grazing(self) -> bool {
        grazing(self.direction_height)
    }

    /// The ray meets the plane's level outside the rectangle.
    pub open spec fn outside(self) -> bool {
        self.impact_x.less(self.min_x) || self.impact_z.less(self.min_z) || self.max_x.less(
            self.impact_x,
        ) || self.max_z.less(self.impact_z)
    }

    /// The ray misses the plane: it points away from it, grazes it, or
    /// meets its level outside the rectangle.
    pub open spec fn misses(self) -> bool {
        self.points_away() || self.grazing() || self.outside()
    }

    /// The ray heads downwards, and so meets the front of the plane.
    pub open spec fn heads_down(self) -> bool {
        self.direction_height.less(Single { bits: ZERO })
    }

    /// The side on which the ray hits the plane, `true` for the front, or
    /// `None` where it misses.
    pub fn side(&self) -> (r: Option<bool>)
        ensures
            r is None <==> self.misses(),
            r matches Some(front) ==> front == self.heads_down(),
    {
        let same_side = match (self.origin_height.signum(), self.direction_height.signum()) {
            (Sign::Negative, Sign::Negative) => true,
            (Sign::Positive, Sign::Positive) => true,
            _ => false,
        };
        if same_side || grazes(self.direction_height) {
            return None;
        }
        let outside = self.impact_x.lt(&self.min_x) || self.impact_z.lt(&self.min_z)
            || self.impact_x.gt(&self.max_x) || self.impact_z.gt(&self.max_z);
        if outside {
            return None;
        }
        let zero = Single { bits: ZERO };
        Some(self.direction_height.lt(&zero))
    }
}

impl Plane {
    /// Both checker counts are positive.
    pub open spec fn counts_positive(self) -> bool {
        self.checker_count_x >= 1 && self.checker_count_z >= 1
    }

    /// Both links are absent or name one of the first `count` planes.
    pub open spec fn links_valid_for(self, count: int) -> bool {
        self.front_portal.valid_for(count) && self.back_portal.valid_for(count)
    }

    /// The link on the side a ray arrives at.
    pub open spec fn side(self, front: bool) -> PortalConnection {
        if front {
            self.front_portal
        } else {
            self.back_portal
        }
    }

    /// The plane as it stands once the plane at `removed` has left the list:
    /// both links re-targeted, all else kept.
    pub open spec fn reindexed(self, removed: int) -> Plane {
        Plane {
            front_portal: self.front_portal.reindexed(removed),
            back_portal: self.back_portal.reindexed(removed),
            ..self
        }
    }

    /// The plane with its checker counts raised to one where they are zero.
    pub open spec fn clamped(self) -> Plane {
        Plane {
            checker_count_x: at_least_one(self.checker_count_x),
            checker_count_z: at_least_one(self.checker_count_z),
            ..self
        }
    }

    /// The half angles of the plane's three rotations, in the XY, the YZ
    /// and the XZ plane.
    pub open spec fn half_angles_of(self) -> (Single, Single, Single) {
        (
            Rotor::half_of(self.xy_rotation),
            Rotor::half_of(self.yz_rotation),
            Rotor::half_of(self.xz_rotation),
        )
    }

    /// The motion that carries the plane's own frame to its place: the
    /// shift to its position, then the three rotations, XY first, then YZ,
    /// then XZ.
    pub open spec fn pose(self, xy: Rotor, yz: Rotor, xz: Rotor) -> Transform {
        Transform::of_rotor(xz.composed(yz.composed(xy))).composed(Transform::shift(self.position))
    }

    /// The ray in the plane's own frame, for a plane placed by `transform`.
    pub open spec fn local_ray(transform: Transform, ray: Ray) -> Ray {
        let inverse = transform.reversed();
        Ray {
            origin: inverse.moved(ray.origin),
            direction: inverse.rotor_of().turned(ray.direction),
        }
    }

    /// The distance along the ray at which it meets the plane's level: the
    /// absolute value of the origin's height over the direction's.
    pub open spec fn distance_of(local: Ray) -> Single {
        local.origin.y.quotient(local.direction.y).absolute()
    }

    /// What decides whether the ray hits the plane.
    pub open spec fn probe_of(self, local: Ray) -> Probe {
        let impact = local.origin.sum(
            local.direction.product(Vector3::splat(Plane::distance_of(local))),
        );
        Probe {
            origin_height: local.origin.y,
            direction_height: local.direction.y,
            impact_x: impact.x,
            impact_z: impact.z,
            min_x: self.width.product(Single { bits: MINUS_HALF }),
            max_x: self.width.product(Single { bits: HALF }),
            min_z: self.height.product(Single { bits: MINUS_HALF }),
            max_z: self.height.product(Single { bits: HALF }),
        }
    }

    /// Where the ray meets the plane placed by `transform`, if it does.
    ///
    /// The hit lies at the ray's origin plus its direction times the
    /// distance. Its normal is the plane's normal on the side of the ray,
    /// carried to the world by `transform` and scaled to unit length.
    pub open spec fn intersection(self, transform: Transform, ray: Ray) -> Option<Hit> {
        let local = Plane::local_ray(transform, ray);
        let probe = self.probe_of(local);
        if probe.misses() {
            None
        } else {
            let distance = Plane::distance_of(local);
            Some(
                Hit {
                    distance,
                    position: ray.origin.sum(ray.direction.product(Vector3::splat(distance))),
                    normal: transform.moved(
                        Vector3 {
                            x: Single { bits: 0 },
                            y: local.direction.y.negated(),
                            z: Single { bits: 0 },
                        },
                    ).direction(),
                    front: probe.heads_down(),
                },
            )
        }
    }

    /// The device record of the plane placed by `transform`: the emissive
    /// colour at its intensity, each link as its device word, all else as it
    /// is.
    pub open spec fn record(self, transform: Transform) -> GpuPlane {
        GpuPlane {
            transform,
            width: self.width,
            height: self.height,
            checker_count_x: self.checker_count_x,
            checker_count_z: self.checker_count_z,
            color: self.color,
            checker_darkness: self.checker_darkness,
            emissive_color: self.emissive_color.product(self.emission_intensity),
            emissive_checker_darkness: self.emissive_checker_darkness,
            front_portal: GpuPortalConnection { other_index: self.front_portal.encoded() as u32 },
            back_portal: GpuPortalConnection { other_index: self.back_portal.encoded() as u32 },
        }
    }

    /// The link on the side a ray arrives at: the front link for a ray that
    /// meets the front, the back link otherwise.
    pub fn portal(&self, front: bool) -> (r: PortalConnection)
        ensures
            r == self.side(front),
    {
        if front {
            self.front_portal
        } else {
            self.back_portal
        }
    }

    /// Raises a checker count of zero to one; a positive count stays.
    pub fn clamp_checker_counts(&mut self)
        ensures
            *final(self) == old(self).clamped(),
            final(self).counts_positive(),
    {
        if self.checker_count_x == 0 {
            self.checker_count_x = 1;
        }
        if self.checker_count_z == 0 {
            self.checker_count_z = 1;
        }
    }

    /// The half angles of the plane's three rotations, whose sines and
    /// cosines make the rotors that `transform` takes.
    pub fn half_angles(&self) -> (r: (Single, Single, Single))
        ensures
            r == self.half_angles_of(),
    {
        (
            Rotor::half(self.xy_rotation),
            Rotor::half(self.yz_rotation),
            Rotor::half(self.xz_rotation),
        )
    }

    /// The motion that carries the plane's own frame to its place, from the
    /// rotors of its three rotations.
    pub fn transform(&self, xy: &Rotor, yz: &Rotor, xz: &Rotor) -> (r: Transform)
        ensures
            r == self.pose(*xy, *yz, *xz),
    {
        let turn = xz.after(&yz.after(xy));
        Transform::from_rotor(turn).after(&Transform::translation(&self.position))
    }

    /// Where the ray meets the plane placed by `transform`, if it does.
    ///
    /// The ray is carried into the plane's own frame by the reverse of
    /// `transform`. It misses where it points away from the plane, runs
    /// along it within the grazing tolerance, or meets the plane's level
    /// outside the rectangle. It hits the front exactly when it heads
    /// downwards in the plane's frame.
    pub fn intersect(&self, transform: &Transform, ray: &Ray) -> (r: Option<Hit>)
        ensures
            r == self.intersection(*transform, *ray),
            self.probe_of(Plane::local_ray(*transform, *ray)).grazing() ==> r is None,
            self.probe_of(Plane::local_ray(*transform, *ray)).outside() ==> r is None,
            self.probe_of(Plane::local_ray(*transform, *ray)).points_away() ==> r is None,
    {
        let inverse_transform = transform.reverse();
        let origin = inverse_transform.transform_point(&ray.origin);
        let direction = inverse_transform.rotor_part().rotate(&ray.direction);

        let distance = origin.y.over(&direction.y).abs();
        let local_pos = origin.plus(&direction.scaled(distance));
        let minus_half = Single { bits: MINUS_HALF };
        let half = Single { bits: HALF };
        let probe = Probe {
            origin_height: origin.y,
            direction_height: direction.y,
            impact_x: local_pos.x,
            impact_z: local_pos.z,
            min_x: self.width.times(&minus_half),
            max_x: self.width.times(&half),
            min_z: self.height.times(&minus_half),
            max_z: self.height.times(&half),
        };
        match probe.side() {
            None => None,
            Some(front) => {
                let position = ray.origin.plus(&ray.direction.scaled(distance));
                let normal = transform.transform_point(
                    &Vector3 { x: Single { bits: 0 }, y: direction.y.neg(), z: Single { bits: 0 } },
                ).normalised();
                Some(Hit { distance, position, normal, front })
            },
        }
    }

    /// Packs the plane, placed by `transform`, for the device.
    pub fn to_gpu(&self, transform: &Transform) -> (r: GpuPlane)
        ensures
            r == self.record(*transform),
    {
        GpuPlane {
            transform: *transform,
            width: self.width,
            height: self.height,
            checker_count_x: self.checker_count_x,
            checker_count_z: self.checker_count_z,
            color: self.color,
            checker_darkness: self.checker_darkness,
            emissive_color: self.emissive_color.scaled(self.emission_intensity),
            emissive_checker_darkness: self.emissive_checker_darkness,
            front_portal: self.front_portal.to_gpu(),
            back_portal: self.back_portal.to_gpu(),
        }
    }
}

impl Default for Plane {
    /// A white square of side one at the origin, not turned, with one
    /// checker cell, a darkness of one half, no emission and no links.
    fn default() -> (r: Plane)
        ensures
            r.name@ == "Default Plane"@,
            r.position == Vector3::of_bits(0, 0, 0),
            r.xy_rotation.bits == 0 && r.yz_rotation.bits == 0 && r.xz_rotation.bits == 0,
            r.color == Color::of_bits(ONE, ONE, ONE),
            r.width.bits == ONE && r.height.bits == ONE,
            r.checker_count_x == 1 && r.checker_count_z == 1,
            r.checker_darkness.bits == HALF,
            r.emissive_color == Color::of_bits(0, 0, 0),
            r.emission_intensity.bits == 0,
            r.emissive_checker_darkness.bits == HALF,
            r.front_portal == (PortalConnection { other_index: None, flip: false }),
            r.back_portal == (PortalConnection { other_index: None, flip: false }),
    {
        let zero = Single { bits: 0 };
        let one = Single { bits: ONE };
        let half = Single { bits: HALF };
        Plane {
            name: "Default Plane".to_owned(),
            position: Vector3::zero(),
            xy_rotation: zero,
            yz_rotation: zero,
            xz_rotation: zero,
            color: Color { r: one, g: one, b: one },
            width: one,
            height: one,
            checker_count_x: 1,
            checker_count_z: 1,
            checker_darkness: half,
            emissive_color: Color { r: zero, g: zero, b: zero },
            emission_intensity: zero,
            emissive_checker_darkness: half,
            front_portal: PortalConnection { other_index: None, flip: false },
            back_portal: PortalConnection { other_index: None, flip: false },
        }
    }
}

} // verus!
