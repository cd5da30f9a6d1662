//! Rays and what they hit.

use vstd::prelude::*;
use crate::single::Single;
use crate::vector3::Vector3;

verus! {

/// A ray from `origin` along `direction`.
#[derive(Clone, Copy, Debug, PartialEq, Eq, Structural)]
pub struct Ray {
    pub origin: Vector3,
    pub direction: Vector3,
}

/// Where a ray meets a plane.
#[derive(Clone, Copy, Debug, PartialEq, Eq, Structural)]
pub struct Hit {
    /// The distance along the ray.
    pub distance: Single,
    /// The point of impact.
    pub position: Vector3,
    /// The unit normal of the plane on the side that was hit.
    pub normal: Vector3,
    /// The ray came down on the front side.
    pub front: bool,
}

} // verus!
