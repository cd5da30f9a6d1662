//! The numeric limits of the rules, and the tests against them.

use vstd::prelude::*;
use crate::single::Single;

verus! {

/// The pattern of zero.
pub const ZERO: u32 = 0;

/// The grazing tolerance: the single-precision number nearest to 0.001.
pub const GRAZING_LIMIT: u32 = 0x3a83_126f;

/// The length below which a vector counts as having no direction: the
/// single-precision number nearest to 0.0001.
pub const NEGLIGIBLE_LENGTH: u32 = 0x38d1_b717;

/// How far the length of an orientation may drift from one: the
/// single-precision number nearest to 0.001.
pub const DRIFT_LIMIT: u32 = 0x3a83_126f;

/// The largest angular radius of the sun: the single-precision number
/// nearest to pi.
pub const HALF_TURN: u32 = 0x4049_0fdb;

/// The pattern of 180, the degrees of half a turn.
pub const HALF_TURN_DEGREES: u32 = 0x4334_0000;

/// The angle in radians of an angle in degrees: the degrees times the
/// quotient of pi by 180.
pub open spec fn radians_of(degrees: Single) -> Single {
    degrees.product((Single { bits: HALF_TURN }).quotient(Single { bits: HALF_TURN_DEGREES }))
}

/// A direction with this height component runs along the plane: the height
/// is a number of absolute value below the grazing tolerance.
pub open spec fn grazing(height: Single) -> bool {
    !height.undefined() && height.weight() < (Single { bits: GRAZING_LIMIT }).weight()
}

/// A vector of this length can be scaled to unit length: the length is a
/// number above the negligible length.
pub open spec fn directed(length: Single) -> bool {
    (Single { bits: NEGLIGIBLE_LENGTH }).less(length)
}

/// The length of an orientation differs from one by this much, which is a
/// number of absolute value above the drift limit.
pub open spec fn drifted(deviation: Single) -> bool {
    !deviation.undefined() && deviation.weight() > (Single { bits: DRIFT_LIMIT }).weight()
}

/// `size` held within the range of the sun's angular radius: zero for a
/// smaller number, half a turn for a greater one, else `size` itself.
pub open spec fn sun_size_of(size: Single) -> Single {
    if size.less(Single { bits: ZERO }) {
        Single { bits: ZERO }
    } else if (Single { bits: HALF_TURN }).less(size) {
        Single { bits: HALF_TURN }
    } else {
        size
    }
}

/// Converts an angle from degrees to radians.
pub fn to_radians(degrees: Single) -> (r: Single)
    ensures
        r == radians_of(degrees),
{
    let pi = Single { bits: HALF_TURN };
    let half_turn = Single { bits: HALF_TURN_DEGREES };
    degrees.times(&pi.over(&half_turn))
}

/// Whether a direction with this height component runs along the plane.
pub fn grazes(height: Single) -> (r: bool)
    ensures
        r == grazing(height),
{
    let limit = Single { bits: GRAZING_LIMIT };
    height.abs().lt(&limit)
}

/// Whether a vector of this length can be scaled to unit length. A shorter
/// vector, and one whose length is no number, is replaced by the zero
/// vector.
pub fn has_direction(length: Single) -> (r: bool)
    ensures
        r == directed(length),
{
    let limit = Single { bits: NEGLIGIBLE_LENGTH };
    length.gt(&limit)
}

/// Whether an orientation has to be brought back to unit length, given by
/// how much its length differs from one.
pub fn has_drifted(deviation: Single) -> (r: bool)
    ensures
        r == drifted(deviation),
{
    let limit = Single { bits: DRIFT_LIMIT };
    deviation.abs().gt(&limit)
}

/// Holds the angular radius of the sun between zero and half a turn. What is
/// no number stays as it is.
pub fn clamp_sun_size(size: Single) -> (r: Single)
    ensures
        r == sun_size_of(size),
{
    let zero = Single { bits: ZERO };
    let most = Single { bits: HALF_TURN };
    if size.lt(&zero) {
        zero
    } else if size.gt(&most) {
        most
    } else {
        size
    }
}

} // verus!
