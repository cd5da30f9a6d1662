//! Vectors of three single-precision numbers.
//!
//! The named axes are X forward, Y up and Z to the right.

use vstd::prelude::*;
use crate::limits::{directed, has_direction};
use crate::single::Single;

verus! {

/// The pattern of one.
pub const ONE: u32 = 0x3f80_0000;

/// A vector, or a point, by its three coordinates.
#[derive(Clone, Copy, Debug, PartialEq, Eq, Structural)]
pub struct Vector3 {
    pub x: Single,
    pub y: Single,
    pub z: Single,
}

impl Vector3 {
    /// The vector with the given patterns as coordinates.
    pub open spec fn of_bits(x: u32, y: u32, z: u32) -> Vector3 {
        Vector3 { x: Single { bits: x }, y: Single { bits: y }, z: Single { bits: z } }
    }

    /// The sum, coordinate by coordinate.
    pub open spec fn sum(self, other: Vector3) -> Vector3 {
        Vector3 { x: self.x.sum(other.x), y: self.y.sum(other.y), z: self.z.sum(other.z) }
    }

    /// The difference, coordinate by coordinate.
    pub open spec fn difference(self, other: Vector3) -> Vector3 {
        Vector3 {
            x: self.x.difference(other.x),
            y: self.y.difference(other.y),
            z: self.z.difference(other.z),
        }
    }

    /// The product, coordinate by coordinate.
    pub open spec fn product(self, other: Vector3) -> Vector3 {
        Vector3 {
            x: self.x.product(other.x),
            y: self.y.product(other.y),
            z: self.z.product(other.z),
        }
    }

    /// The quotient, coordinate by coordinate.
    pub open spec fn quotient(self, other: Vector3) -> Vector3 {
        Vector3 {
            x: self.x.quotient(other.x),
            y: self.y.quotient(other.y),
            z: self.z.quotient(other.z),
        }
    }

    /// The vector with the same number in each coordinate.
    pub open spec fn splat(number: Single) -> Vector3 {
        Vector3 { x: number, y: number, z: number }
    }

    /// The dot product: `x x' + y y' + z z'`, summed in this order.
    pub open spec fn dot_of(self, other: Vector3) -> Single {
        self.x.product(other.x).sum(self.y.product(other.y)).sum(self.z.product(other.z))
    }

    /// The length: the root of the dot product with itself.
    pub open spec fn length(self) -> Single {
        self.dot_of(self).root()
    }

    /// The vector scaled to unit length by the inverse of its length, or the
    /// zero vector where the length is too small to give a direction.
    pub open spec fn direction(self) -> Vector3 {
        if directed(self.length()) {
            self.product(Vector3::splat((Single { bits: ONE }).quotient(self.length())))
        } else {
            Vector3::of_bits(0, 0, 0)
        }
    }

    /// The zero vector.
    pub fn zero() -> (r: Vector3)
        ensures
            r == Vector3::of_bits(0, 0, 0),
    {
        Vector3 { x: Single { bits: 0 }, y: Single { bits: 0 }, z: Single { bits: 0 } }
    }

    /// The vector of three ones.
    pub fn one() -> (r: Vector3)
        ensures
            r == Vector3::of_bits(ONE, ONE, ONE),
    {
        Vector3 { x: Single { bits: ONE }, y: Single { bits: ONE }, z: Single { bits: ONE } }
    }

    /// The unit vector along X, which points forward.
    pub fn forward() -> (r: Vector3)
        ensures
            r == Vector3::of_bits(ONE, 0, 0),
    {
        Vector3 { x: Single { bits: ONE }, y: Single { bits: 0 }, z: Single { bits: 0 } }
    }

    /// The unit vector along Y, which points up.
    pub fn up() -> (r: Vector3)
        ensures
            r == Vector3::of_bits(0, ONE, 0),
    {
        Vector3 { x: Single { bits: 0 }, y: Single { bits: ONE }, z: Single { bits: 0 } }
    }

    /// The unit vector along Z, which points to the right.
    pub fn right() -> (r: Vector3)
        ensures
            r == Vector3::of_bits(0, 0, ONE),
    {
        Vector3 { x: Single { bits: 0 }, y: Single { bits: 0 }, z: Single { bits: ONE } }
    }

    /// Adds two vectors.
    pub fn plus(&self, other: &Vector3) -> (r: Vector3)
        ensures
            r == self.sum(*other),
    {
        Vector3 {
            x: self.x.plus(&other.x),
            y: self.y.plus(&other.y),
            z: self.z.plus(&other.z),
        }
    }

    /// Subtracts `other` from `self`.
    pub fn minus(&self, other: &Vector3) -> (r: Vector3)
        ensures
            r == self.difference(*other),
    {
        Vector3 {
            x: self.x.minus(&other.x),
            y: self.y.minus(&other.y),
            z: self.z.minus(&other.z),
        }
    }

    /// Multiplies two vectors coordinate by coordinate.
    pub fn times(&self, other: &Vector3) -> (r: Vector3)
        ensures
            r == self.product(*other),
    {
        Vector3 {
            x: self.x.times(&other.x),
            y: self.y.times(&other.y),
            z: self.z.times(&other.z),
        }
    }

    /// Divides `self` by `other` coordinate by coordinate.
    pub fn over(&self, other: &Vector3) -> (r: Vector3)
        ensures
            r == self.quotient(*other),
    {
        Vector3 {
            x: self.x.over(&other.x),
            y: self.y.over(&other.y),
            z: self.z.over(&other.z),
        }
    }

    /// Adds a number to each coordinate.
    pub fn plus_each(&self, number: Single) -> (r: Vector3)
        ensures
            r == self.sum(Vector3::splat(number)),
    {
        Vector3 { x: self.x.plus(&number), y: self.y.plus(&number), z: self.z.plus(&number) }
    }

    /// Subtracts a number from each coordinate.
    pub fn minus_each(&self, number: Single) -> (r: Vector3)
        ensures
            r == self.difference(Vector3::splat(number)),
    {
        Vector3 { x: self.x.minus(&number), y: self.y.minus(&number), z: self.z.minus(&number) }
    }

    /// Multiplies each coordinate by a number.
    pub fn scaled(&self, factor: Single) -> (r: Vector3)
        ensures
            r == self.product(Vector3::splat(factor)),
    {
        Vector3 { x: self.x.times(&factor), y: self.y.times(&factor), z: self.z.times(&factor) }
    }

    /// Divides each coordinate by a number.
    pub fn divided(&self, divisor: Single) -> (r: Vector3)
        ensures
            r == self.quotient(Vector3::splat(divisor)),
    {
        Vector3 { x: self.x.over(&divisor), y: self.y.over(&divisor), z: self.z.over(&divisor) }
    }

    /// The dot product of two vectors.
    pub fn dot(&self, other: &Vector3) -> (r: Single)
        ensures
            r == self.dot_of(*other),
    {
        self.x.times(&other.x).plus(&self.y.times(&other.y)).plus(&self.z.times(&other.z))
    }

    /// The square of the length.
    pub fn sqr_magnitude(&self) -> (r: Single)
        ensures
            r == self.dot_of(*self),
    {
        self.dot(self)
    }

    /// The length.
    pub fn magnitude(&self) -> (r: Single)
        ensures
            r == self.length(),
    {
        self.sqr_magnitude().sqrt()
    }

    /// The vector scaled to unit length, or the zero vector where the length
    /// is no number above the negligible length.
    pub fn normalised(&self) -> (r: Vector3)
        ensures
            r == self.direction(),
            !directed(self.length()) ==> r == Vector3::of_bits(0, 0, 0),
    {
        let magnitude = self.magnitude();
        if has_direction(magnitude) {
            let one = Single { bits: ONE };
            self.scaled(one.over(&magnitude))
        } else {
            Vector3::zero()
        }
    }
}

} // verus!
