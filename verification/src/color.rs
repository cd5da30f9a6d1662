//! Linear RGB colours in single precision.

use vstd::prelude::*;
use crate::single::Single;

verus! {

/// A colour by its red, green and blue parts.
#[derive(Clone, Copy, Debug, PartialEq, Eq, Structural)]
pub struct Color {
    pub r: Single,
    pub g: Single,
    pub b: Single,
}

impl Color {
    /// The colour with the given patterns as parts.
    pub open spec fn of_bits(r: u32, g: u32, b: u32) -> Color {
        Color { r: Single { bits: r }, g: Single { bits: g }, b: Single { bits: b } }
    }

    /// The colour with each part multiplied by `factor`.
    pub open spec fn product(self, factor: Single) -> Color {
        Color { r: self.r.product(factor), g: self.g.product(factor), b: self.b.product(factor) }
    }

    /// Multiplies each part by `factor`: a colour at an intensity.
    pub fn scaled(&self, factor: Single) -> (r: Color)
        ensures
            r == self.product(factor),
    {
        Color { r: self.r.times(&factor), g: self.g.times(&factor), b: self.b.times(&factor) }
    }
}

} // verus!
