//! Rotors: the coefficients of `s + e12 e1e2 + e13 e1e3 + e23 e2e3`, which
//! stand for a rotation when their squares add up to one.
//!
//! Every sum and product below is rounded as it is formed, in the order in
//! which it is written, from left to right.

use vstd::prelude::*;
use crate::limits::{directed, has_direction};
use crate::single::Single;
use crate::vector3::{Vector3, ONE};

verus! {

/// The pattern of two.
pub const TWO: u32 = 0x4000_0000;

/// The pattern of one half.
pub const HALF: u32 = 0x3f00_0000;

/// The four coefficients of a rotor.
#[derive(Clone, Copy, Debug, PartialEq, Eq, Structural)]
pub struct Rotor {
    pub s: Single,
    pub e12: Single,
    pub e13: Single,
    pub e23: Single,
}

/// `p q r`, multiplied from the left.
pub open spec fn product3(p: Single, q: Single, r: Single) -> Single {
    p.product(q).product(r)
}

/// `2 p q r`, multiplied from the left.
pub open spec fn twice3(p: Single, q: Single, r: Single) -> Single {
    (Single { bits: TWO }).product(p).product(q).product(r)
}

pub(crate) fn mul3(p: Single, q: Single, r: Single) -> (v: Single)
    ensures
        v == product3(p, q, r),
{
    p.times(&q).times(&r)
}

pub(crate) fn double3(p: Single, q: Single, r: Single) -> (v: Single)
    ensures
        v == twice3(p, q, r),
{
    let two = Single { bits: TWO };
    two.times(&p).times(&q).times(&r)
}

impl Rotor {
    /// The rotor that turns nothing: `s` is one, the rest zero.
    pub open spec fn identity_of() -> Rotor {
        Rotor {
            s: Single { bits: ONE },
            e12: Single { bits: 0 },
            e13: Single { bits: 0 },
            e23: Single { bits: 0 },
        }
    }

    /// Half of an angle: the angle whose sine and cosine make the rotor.
    pub open spec fn half_of(angle: Single) -> Single {
        angle.product(Single { bits: HALF })
    }

    /// `self` after `after`: the product of the algebra, with
    /// `self = (a1, b1, c1, d1)` and `after = (a2, b2, c2, d2)`:
    ///
    /// - s:   `a1 a2 - b1 b2 - c1 c2 - d1 d2`
    /// - e12: `a1 b2 + a2 b1 + c2 d1 - c1 d2`
    /// - e13: `a1 c2 + a2 c1 + b1 d2 - b2 d1`
    /// - e23: `a1 d2 + a2 d1 + b2 c1 - b1 c2`
    pub open spec fn composed(self, after: Rotor) -> Rotor {
        let Rotor { s: a1, e12: b1, e13: c1, e23: d1 } = self;
        let Rotor { s: a2, e12: b2, e13: c2, e23: d2 } = after;
        Rotor {
            s: a1.product(a2).difference(b1.product(b2)).difference(c1.product(c2)).difference(
                d1.product(d2),
            ),
            e12: a1.product(b2).sum(a2.product(b1)).sum(c2.product(d1)).difference(
                c1.product(d2),
            ),
            e13: a1.product(c2).sum(a2.product(c1)).sum(b1.product(d2)).difference(
                b2.product(d1),
            ),
            e23: a1.product(d2).sum(a2.product(d1)).sum(b2.product(c1)).difference(
                b1.product(c2),
            ),
        }
    }

    /// The coefficient of `e0 e1 e2` of a point under the rotor
    /// `(a, b, c, d)`, from which the new `z` comes:
    /// `c c z + d d z - 2 a c x - 2 a d y - 2 b d x - a a z - b b z + 2 b c y`.
    pub open spec fn turned_e012(self, point: Vector3) -> Single {
        let Rotor { s: a, e12: b, e13: c, e23: d } = self;
        let Vector3 { x, y, z } = point;
        product3(c, c, z).sum(product3(d, d, z)).difference(twice3(a, c, x)).difference(
            twice3(a, d, y),
        ).difference(twice3(b, d, x)).difference(product3(a, a, z)).difference(
            product3(b, b, z),
        ).sum(twice3(b, c, y))
    }

    /// The coefficient of `e0 e1 e3`, which is the new `y`:
    /// `a a y + c c y - 2 a d z - 2 b c z - 2 c d x - b b y - d d y + 2 a b x`.
    pub open spec fn turned_e013(self, point: Vector3) -> Single {
        let Rotor { s: a, e12: b, e13: c, e23: d } = self;
        let Vector3 { x, y, z } = point;
        product3(a, a, y).sum(product3(c, c, y)).difference(twice3(a, d, z)).difference(
            twice3(b, c, z),
        ).difference(twice3(c, d, x)).difference(product3(b, b, y)).difference(
            product3(d, d, y),
        ).sum(twice3(a, b, x))
    }

    /// The coefficient of `e0 e2 e3`, from which the new `x` comes:
    /// `b b x + c c x - 2 b d z - a a x - d d x + 2 a b y + 2 a c z + 2 c d y`.
    pub open spec fn turned_e023(self, point: Vector3) -> Single {
        let Rotor { s: a, e12: b, e13: c, e23: d } = self;
        let Vector3 { x, y, z } = point;
        product3(b, b, x).sum(product3(c, c, x)).difference(twice3(b, d, z)).difference(
            product3(a, a, x),
        ).difference(product3(d, d, x)).sum(twice3(a, b, y)).sum(twice3(a, c, z)).sum(
            twice3(c, d, y),
        )
    }

    /// The point turned by the rotor: `(-e023, e013, -e012)`.
    pub open spec fn turned(self, point: Vector3) -> Vector3 {
        Vector3 {
            x: self.turned_e023(point).negated(),
            y: self.turned_e013(point),
            z: self.turned_e012(point).negated(),
        }
    }

    /// The length of the rotor: the root of `s s + e12 e12 + e13 e13 + e23 e23`.
    pub open spec fn length(self) -> Single {
        self.s.product(self.s).sum(self.e12.product(self.e12)).sum(
            self.e13.product(self.e13),
        ).sum(self.e23.product(self.e23)).root()
    }

    /// The rotor scaled to unit length by the inverse of its length, or the
    /// identity where the length is too small to scale by.
    pub open spec fn unit(self) -> Rotor {
        if directed(self.length()) {
            let scale = (Single { bits: ONE }).quotient(self.length());
            Rotor {
                s: self.s.product(scale),
                e12: self.e12.product(scale),
                e13: self.e13.product(scale),
                e23: self.e23.product(scale),
            }
        } else {
            Rotor::identity_of()
        }
    }

    /// The rotor that turns nothing.
    pub fn identity() -> (r: Rotor)
        ensures
            r == Rotor::identity_of(),
    {
        Rotor {
            s: Single { bits: ONE },
            e12: Single { bits: 0 },
            e13: Single { bits: 0 },
            e23: Single { bits: 0 },
        }
    }

    /// Half of an angle.
    pub fn half(angle: Single) -> (r: Single)
        ensures
            r == Rotor::half_of(angle),
    {
        let half = Single { bits: HALF };
        angle.times(&half)
    }

    /// The rotation in the XY plane with the given sine and cosine of half
    /// its angle.
    pub fn rotation_xy(half_sine: Single, half_cosine: Single) -> (r: Rotor)
        ensures
            r == (Rotor {
                s: half_cosine,
                e12: half_sine,
                e13: Single { bits: 0 },
                e23: Single { bits: 0 },
            }),
    {
        Rotor { s: half_cosine, e12: half_sine, e13: Single { bits: 0 }, e23: Single { bits: 0 } }
    }

    /// The rotation in the XZ plane with the given sine and cosine of half
    /// its angle.
    pub fn rotation_xz(half_sine: Single, half_cosine: Single) -> (r: Rotor)
        ensures
            r == (Rotor {
                s: half_cosine,
                e12: Single { bits: 0 },
                e13: half_sine,
                e23: Single { bits: 0 },
            }),
    {
        Rotor { s: half_cosine, e12: Single { bits: 0 }, e13: half_sine, e23: Single { bits: 0 } }
    }

    /// The rotation in the YZ plane with the given sine and cosine of half
    /// its angle.
    pub fn rotation_yz(half_sine: Single, half_cosine: Single) -> (r: Rotor)
        ensures
            r == (Rotor {
                s: half_cosine,
                e12: Single { bits: 0 },
                e13: Single { bits: 0 },
                e23: half_sine,
            }),
    {
        Rotor { s: half_cosine, e12: Single { bits: 0 }, e13: Single { bits: 0 }, e23: half_sine }
    }

    /// `self` then `then`: the same as `then` after `self`.
    pub fn then(&self, then: &Rotor) -> (r: Rotor)
        ensures
            r == then.composed(*self),
    {
        then.after(self)
    }

    /// `self` after `after`.
    pub fn after(&self, after: &Rotor) -> (r: Rotor)
        ensures
            r == self.composed(*after),
    {
        let Rotor { s: a1, e12: b1, e13: c1, e23: d1 } = *self;
        let Rotor { s: a2, e12: b2, e13: c2, e23: d2 } = *after;
        Rotor {
            s: a1.times(&a2).minus(&b1.times(&b2)).minus(&c1.times(&c2)).minus(&d1.times(&d2)),
            e12: a1.times(&b2).plus(&a2.times(&b1)).plus(&c2.times(&d1)).minus(&c1.times(&d2)),
            e13: a1.times(&c2).plus(&a2.times(&c1)).plus(&b1.times(&d2)).minus(&b2.times(&d1)),
            e23: a1.times(&d2).plus(&a2.times(&d1)).plus(&b2.times(&c1)).minus(&b1.times(&c2)),
        }
    }

    /// Turns a point about the origin.
    pub fn rotate(&self, point: &Vector3) -> (r: Vector3)
        ensures
            r == self.turned(*point),
    {
        let Rotor { s: a, e12: b, e13: c, e23: d } = *self;
        let Vector3 { x, y, z } = *point;
        let e012 = mul3(c, c, z).plus(&mul3(d, d, z)).minus(&double3(a, c, x)).minus(
            &double3(a, d, y),
        ).minus(&double3(b, d, x)).minus(&mul3(a, a, z)).minus(&mul3(b, b, z)).plus(
            &double3(b, c, y),
        );
        let e013 = mul3(a, a, y).plus(&mul3(c, c, y)).minus(&double3(a, d, z)).minus(
            &double3(b, c, z),
        ).minus(&double3(c, d, x)).minus(&mul3(b, b, y)).minus(&mul3(d, d, y)).plus(
            &double3(a, b, x),
        );
        let e023 = mul3(b, b, x).plus(&mul3(c, c, x)).minus(&double3(b, d, z)).minus(
            &mul3(a, a, x),
        ).minus(&mul3(d, d, x)).plus(&double3(a, b, y)).plus(&double3(a, c, z)).plus(
            &double3(c, d, y),
        );
        Vector3 { x: e023.neg(), y: e013, z: e012.neg() }
    }

    /// The length of the rotor.
    pub fn magnitude(&self) -> (r: Single)
        ensures
            r == self.length(),
    {
        self.s.times(&self.s).plus(&self.e12.times(&self.e12)).plus(
            &self.e13.times(&self.e13),
        ).plus(&self.e23.times(&self.e23)).sqrt()
    }

    /// The rotor scaled to unit length, or the identity where the length is
    /// no number above the negligible length.
    pub fn normalised(&self) -> (r: Rotor)
        ensures
            r == self.unit(),
    {
        let magnitude = self.magnitude();
        if has_direction(magnitude) {
            let one = Single { bits: ONE };
            let scale = one.over(&magnitude);
            Rotor {
                s: self.s.times(&scale),
                e12: self.e12.times(&scale),
                e13: self.e13.times(&scale),
                e23: self.e23.times(&scale),
            }
        } else {
            Rotor::identity()
        }
    }
}

} // verus!
