//! Rigid motions: the eight coefficients of an even multivector over the
//! basis `(e0, e1, e2, e3)`, a rotor together with the translation
//! bivectors `e01, e02, e03` and the pseudoscalar `e0123`.
//!
//! The translation bivectors carry half the offset. Every sum and product
//! below is rounded as it is formed, in the order in which it is written,
//! from left to right.

use vstd::prelude::*;
use crate::rotor::{double3, mul3, product3, twice3, Rotor, HALF, TWO};
use crate::single::Single;
use crate::vector3::Vector3;

verus! {

/// The pattern of minus two.
pub const MINUS_TWO: u32 = 0xc000_0000;

/// `2 p q`, multiplied from the left.
pub open spec fn twice2(p: Single, q: Single) -> Single {
    (Single { bits: TWO }).product(p).product(q)
}

/// `-2 p q`, multiplied from the left.
pub open spec fn minus_twice2(p: Single, q: Single) -> Single {
    (Single { bits: MINUS_TWO }).product(p).product(q)
}

fn double2(p: Single, q: Single) -> (v: Single)
    ensures
        v == twice2(p, q),
{
    let two = Single { bits: TWO };
    two.times(&p).times(&q)
}

fn minus_double2(p: Single, q: Single) -> (v: Single)
    ensures
        v == minus_twice2(p, q),
{
    let minus_two = Single { bits: MINUS_TWO };
    minus_two.times(&p).times(&q)
}

/// The eight coefficients of a rigid motion.
#[derive(Clone, Copy, Debug, PartialEq, Eq, Structural)]
pub struct Transform {
    pub s: Single,
    pub e12: Single,
    pub e13: Single,
    pub e23: Single,
    pub e01: Single,
    pub e02: Single,
    pub e03: Single,
    pub e0123: Single,
}

impl Transform {
    /// The motion that moves nothing: `s` is one, the rest zero.
    pub open spec fn identity_of() -> Transform {
        Transform::of_rotor(Rotor::identity_of())
    }

    /// The motion that turns as `rotor` does and shifts nothing.
    pub open spec fn of_rotor(rotor: Rotor) -> Transform {
        Transform {
            s: rotor.s,
            e12: rotor.e12,
            e13: rotor.e13,
            e23: rotor.e23,
            e01: Single { bits: 0 },
            e02: Single { bits: 0 },
            e03: Single { bits: 0 },
            e0123: Single { bits: 0 },
        }
    }

    /// The rotor of this motion.
    pub open spec fn rotor_of(self) -> Rotor {
        Rotor { s: self.s, e12: self.e12, e13: self.e13, e23: self.e23 }
    }

    /// The reverse of this motion: the six bivector coefficients negated,
    /// the scalar and the pseudoscalar kept.
    pub open spec fn reversed(self) -> Transform {
        Transform {
            s: self.s,
            e12: self.e12.negated(),
            e13: self.e13.negated(),
            e23: self.e23.negated(),
            e01: self.e01.negated(),
            e02: self.e02.negated(),
            e03: self.e03.negated(),
            e0123: self.e0123,
        }
    }

    /// The motion that shifts by `offset` and turns nothing: the identity
    /// with half the offset in the translation bivectors.
    pub open spec fn shift(offset: Vector3) -> Transform {
        let half = Single { bits: HALF };
        Transform {
            s: Transform::identity_of().s,
            e12: Transform::identity_of().e12,
            e13: Transform::identity_of().e13,
            e23: Transform::identity_of().e23,
            e01: offset.x.product(half),
            e02: offset.y.product(half),
            e03: offset.z.product(half),
            e0123: Transform::identity_of().e0123,
        }
    }

    /// `self` after `after`: the product of the algebra. With the
    /// coefficients `(s, e12, e13, e23, e01, e02, e03, e0123)` of `self`
    /// named `(a1, b1, c1, d1, e1, f1, g1, h1)` and those of `after` named
    /// `(a2, ..., h2)`:
    ///
    /// - s:     `a1 a2 - b1 b2 - c1 c2 - d1 d2`
    /// - e12:   `a1 b2 + a2 b1 + c2 d1 - c1 d2`
    /// - e13:   `a1 c2 + a2 c1 + b1 d2 - b2 d1`
    /// - e23:   `a1 d2 + a2 d1 + b2 c1 - b1 c2`
    /// - e01:   `a1 e2 + a2 e1 + b1 f2 + c1 g2 - b2 f1 - c2 g1 - d1 h2 - d2 h1`
    /// - e02:   `a1 f2 + a2 f1 + b2 e1 + c1 h2 + c2 h1 + d1 g2 - b1 e2 - d2 g1`
    /// - e03:   `a1 g2 + a2 g1 + c2 e1 + d2 f1 - b1 h2 - b2 h1 - c1 e2 - d1 f2`
    /// - e0123: `a1 h2 + a2 h1 + b1 g2 + b2 g1 + d1 e2 + d2 e1 - c1 f2 - c2 f1`
    pub open spec fn composed(self, after: Transform) -> Transform {
        let Transform { s: a1, e12: b1, e13: c1, e23: d1, e01: e1, e02: f1, e03: g1, e0123: h1 } =
            self;
        let Transform { s: a2, e12: b2, e13: c2, e23: d2, e01: e2, e02: f2, e03: g2, e0123: h2 } =
            after;
        Transform {
            s: a1.product(a2).difference(b1.product(b2)).difference(c1.product(c2)).difference(
                d1.product(d2),
            ),
            e12: a1.product(b2).sum(a2.product(b1)).sum(c2.product(d1)).difference(
                c1.product(d2),
            ),
            e13: a1.product(c2).sum(a2.product(c1)).sum(b1.product(d2)).difference(
                b2.product(d1),
            ),
            e23: a1.product(d2).sum(a2.product(d1)).sum(b2.product(c1)).difference(
                b1.product(c2),
            ),
            e01: a1.product(e2).sum(a2.product(e1)).sum(b1.product(f2)).sum(
                c1.product(g2),
            ).difference(b2.product(f1)).difference(c2.product(g1)).difference(
                d1.product(h2),
            ).difference(d2.product(h1)),
            e02: a1.product(f2).sum(a2.product(f1)).sum(b2.product(e1)).sum(c1.product(h2)).sum(
                c2.product(h1),
            ).sum(d1.product(g2)).difference(b1.product(e2)).difference(d2.product(g1)),
            e03: a1.product(g2).sum(a2.product(g1)).sum(c2.product(e1)).sum(
                d2.product(f1),
            ).difference(b1.product(h2)).difference(b2.product(h1)).difference(
                c1.product(e2),
            ).difference(d1.product(f2)),
            e0123: a1.product(h2).sum(a2.product(h1)).sum(b1.product(g2)).sum(
                b2.product(g1),
            ).sum(d1.product(e2)).sum(d2.product(e1)).difference(c1.product(f2)).difference(
                c2.product(f1),
            ),
        }
    }

    /// The coefficient of `e0 e1 e2` of a point under this motion, from
    /// which the new `z` comes:
    /// `-2 a g - 2 b h - 2 c e - 2 d f + c c z + d d z - 2 a c x - 2 a d y
    /// - 2 b d x - a a z - b b z + 2 b c y`.
    pub open spec fn moved_e012(self, point: Vector3) -> Single {
        let Transform { s: a, e12: b, e13: c, e23: d, e01: e, e02: f, e03: g, e0123: h } = self;
        let Vector3 { x, y, z } = point;
        minus_twice2(a, g).difference(twice2(b, h)).difference(twice2(c, e)).difference(
            twice2(d, f),
        ).sum(product3(c, c, z)).sum(product3(d, d, z)).difference(twice3(a, c, x)).difference(
            twice3(a, d, y),
        ).difference(twice3(b, d, x)).difference(product3(a, a, z)).difference(
            product3(b, b, z),
        ).sum(twice3(b, c, y))
    }

    /// The coefficient of `e0 e1 e3`, which is the new `y`:
    /// `-2 c h - 2 d g + 2 a f + 2 b e + a a y + c c y - 2 a d z - 2 b c z
    /// - 2 c d x - b b y - d d y + 2 a b x`.
    pub open spec fn moved_e013(self, point: Vector3) -> Single {
        let Transform { s: a, e12: b, e13: c, e23: d, e01: e, e02: f, e03: g, e0123: h } = self;
        let Vector3 { x, y, z } = point;
        minus_twice2(c, h).difference(twice2(d, g)).sum(twice2(a, f)).sum(twice2(b, e)).sum(
            product3(a, a, y),
        ).sum(product3(c, c, y)).difference(twice3(a, d, z)).difference(
            twice3(b, c, z),
        ).difference(twice3(c, d, x)).difference(product3(b, b, y)).difference(
            product3(d, d, y),
        ).sum(twice3(a, b, x))
    }

    /// The coefficient of `e0 e2 e3`, from which the new `x` comes:
    /// `-2 a e - 2 d h + 2 b f + 2 c g + b b x + c c x - 2 b d z - a a x
    /// - d d x + 2 a b y + 2 a c z + 2 c d y`.
    pub open spec fn moved_e023(self, point: Vector3) -> Single {
        let Transform { s: a, e12: b, e13: c, e23: d, e01: e, e02: f, e03: g, e0123: h } = self;
        let Vector3 { x, y, z } = point;
        minus_twice2(a, e).difference(twice2(d, h)).sum(twice2(b, f)).sum(twice2(c, g)).sum(
            product3(b, b, x),
        ).sum(product3(c, c, x)).difference(twice3(b, d, z)).difference(
            product3(a, a, x),
        ).difference(product3(d, d, x)).sum(twice3(a, b, y)).sum(twice3(a, c, z)).sum(
            twice3(c, d, y),
        )
    }

    /// The point moved by this motion: `(-e023, e013, -e012)`.
    pub open spec fn moved(self, point: Vector3) -> Vector3 {
        Vector3 {
            x: self.moved_e023(point).negated(),
            y: self.moved_e013(point),
            z: self.moved_e012(point).negated(),
        }
    }

    /// The rotor of the motion made from a rotor is that rotor.
    pub proof fn lemma_rotor_part_of_from_rotor(rotor: Rotor)
        ensures
            Transform::of_rotor(rotor).rotor_of() == rotor,
    {
    }

    /// Reversing twice gives the motion back.
    pub proof fn lemma_reverse_twice(self)
        ensures
            self.reversed().reversed() == self,
    {
    }

    /// Reversing negates each bivector coefficient exactly and leaves the
    /// other two as they are.
    pub proof fn lemma_reverse_negates(self)
        ensures
            self.reversed().s == self.s,
            self.reversed().e0123 == self.e0123,
            self.reversed().e12.scaled() == -self.e12.scaled(),
            self.reversed().e13.scaled() == -self.e13.scaled(),
            self.reversed().e23.scaled() == -self.e23.scaled(),
            self.reversed().e01.scaled() == -self.e01.scaled(),
            self.reversed().e02.scaled() == -self.e02.scaled(),
            self.reversed().e03.scaled() == -self.e03.scaled(),
    {
    }

    /// The motion that moves nothing.
    pub fn identity() -> (r: Transform)
        ensures
            r == Transform::identity_of(),
    {
        Transform::from_rotor(Rotor::identity())
    }

    /// The motion that turns as `rotor` does and shifts nothing: the rotor's
    /// coefficients, with the translation bivectors and the pseudoscalar
    /// zero.
    pub fn from_rotor(rotor: Rotor) -> (r: Transform)
        ensures
            r == Transform::of_rotor(rotor),
            r.rotor_of() == rotor,
    {
        let Rotor { s, e12, e13, e23 } = rotor;
        Transform {
            s,
            e12,
            e13,
            e23,
            e01: Single { bits: 0 },
            e02: Single { bits: 0 },
            e03: Single { bits: 0 },
            e0123: Single { bits: 0 },
        }
    }

    /// The motion that shifts by `offset`.
    pub fn translation(offset: &Vector3) -> (r: Transform)
        ensures
            r == Transform::shift(*offset),
    {
        let half = Single { bits: HALF };
        let identity = Transform::identity();
        Transform {
            s: identity.s,
            e12: identity.e12,
            e13: identity.e13,
            e23: identity.e23,
            e01: offset.x.times(&half),
            e02: offset.y.times(&half),
            e03: offset.z.times(&half),
            e0123: identity.e0123,
        }
    }

    /// The rotation in the XY plane with the given sine and cosine of half
    /// its angle.
    pub fn rotation_xy(half_sine: Single, half_cosine: Single) -> (r: Transform)
        ensures
            r == Transform::of_rotor(
                Rotor {
                    s: half_cosine,
                    e12: half_sine,
                    e13: Single { bits: 0 },
                    e23: Single { bits: 0 },
                },
            ),
    {
        Transform::from_rotor(Rotor::rotation_xy(half_sine, half_cosine))
    }

    /// The rotation in the XZ plane with the given sine and cosine of half
    /// its angle.
    pub fn rotation_xz(half_sine: Single, half_cosine: Single) -> (r: Transform)
        ensures
            r == Transform::of_rotor(
                Rotor {
                    s: half_cosine,
                    e12: Single { bits: 0 },
                    e13: half_sine,
                    e23: Single { bits: 0 },
                },
            ),
    {
        Transform::from_rotor(Rotor::rotation_xz(half_sine, half_cosine))
    }

    /// The rotation in the YZ plane with the given sine and cosine of half
    /// its angle.
    pub fn rotation_yz(half_sine: Single, half_cosine: Single) -> (r: Transform)
        ensures
            r == Transform::of_rotor(
                Rotor {
                    s: half_cosine,
                    e12: Single { bits: 0 },
                    e13: Single { bits: 0 },
                    e23: half_sine,
                },
            ),
    {
        Transform::from_rotor(Rotor::rotation_yz(half_sine, half_cosine))
    }

    /// `self` then `then`: the same as `then` after `self`.
    pub fn then(&self, then: &Transform) -> (r: Transform)
        ensures
            r == then.composed(*self),
    {
        then.after(self)
    }

    /// `self` after `after`.
    pub fn after(&self, after: &Transform) -> (r: Transform)
        ensures
            r == self.composed(*after),
    {
        let Transform { s: a1, e12: b1, e13: c1, e23: d1, e01: e1, e02: f1, e03: g1, e0123: h1 } =
            *self;
        let Transform { s: a2, e12: b2, e13: c2, e23: d2, e01: e2, e02: f2, e03: g2, e0123: h2 } =
            *after;
        Transform {
            s: a1.times(&a2).minus(&b1.times(&b2)).minus(&c1.times(&c2)).minus(&d1.times(&d2)),
            e12: a1.times(&b2).plus(&a2.times(&b1)).plus(&c2.times(&d1)).minus(&c1.times(&d2)),
            e13: a1.times(&c2).plus(&a2.times(&c1)).plus(&b1.times(&d2)).minus(&b2.times(&d1)),
            e23: a1.times(&d2).plus(&a2.times(&d1)).plus(&b2.times(&c1)).minus(&b1.times(&c2)),
            e01: a1.times(&e2).plus(&a2.times(&e1)).plus(&b1.times(&f2)).plus(
                &c1.times(&g2),
            ).minus(&b2.times(&f1)).minus(&c2.times(&g1)).minus(&d1.times(&h2)).minus(
                &d2.times(&h1),
            ),
            e02: a1.times(&f2).plus(&a2.times(&f1)).plus(&b2.times(&e1)).plus(
                &c1.times(&h2),
            ).plus(&c2.times(&h1)).plus(&d1.times(&g2)).minus(&b1.times(&e2)).minus(
                &d2.times(&g1),
            ),
            e03: a1.times(&g2).plus(&a2.times(&g1)).plus(&c2.times(&e1)).plus(
                &d2.times(&f1),
            ).minus(&b1.times(&h2)).minus(&b2.times(&h1)).minus(&c1.times(&e2)).minus(
                &d1.times(&f2),
            ),
            e0123: a1.times(&h2).plus(&a2.times(&h1)).plus(&b1.times(&g2)).plus(
                &b2.times(&g1),
            ).plus(&d1.times(&e2)).plus(&d2.times(&e1)).minus(&c1.times(&f2)).minus(
                &c2.times(&f1),
            ),
        }
    }

    /// Moves a point.
    pub fn transform_point(&self, point: &Vector3) -> (r: Vector3)
        ensures
            r == self.moved(*point),
    {
        let Transform { s: a, e12: b, e13: c, e23: d, e01: e, e02: f, e03: g, e0123: h } = *self;
        let Vector3 { x, y, z } = *point;
        let e012 = minus_double2(a, g).minus(&double2(b, h)).minus(&double2(c, e)).minus(
            &double2(d, f),
        ).plus(&mul3(c, c, z)).plus(&mul3(d, d, z)).minus(&double3(a, c, x)).minus(
            &double3(a, d, y),
        ).minus(&double3(b, d, x)).minus(&mul3(a, a, z)).minus(&mul3(b, b, z)).plus(
            &double3(b, c, y),
        );
        let e013 = minus_double2(c, h).minus(&double2(d, g)).plus(&double2(a, f)).plus(
            &double2(b, e),
        ).plus(&mul3(a, a, y)).plus(&mul3(c, c, y)).minus(&double3(a, d, z)).minus(
            &double3(b, c, z),
        ).minus(&double3(c, d, x)).minus(&mul3(b, b, y)).minus(&mul3(d, d, y)).plus(
            &double3(a, b, x),
        );
        let e023 = minus_double2(a, e).minus(&double2(d, h)).plus(&double2(b, f)).plus(
            &double2(c, g),
        ).plus(&mul3(b, b, x)).plus(&mul3(c, c, x)).minus(&double3(b, d, z)).minus(
            &mul3(a, a, x),
        ).minus(&mul3(d, d, x)).plus(&double3(a, b, y)).plus(&double3(a, c, z)).plus(
            &double3(c, d, y),
        );
        Vector3 { x: e023.neg(), y: e013, z: e012.neg() }
    }

    /// The rotor of this motion, without its translation.
    pub fn rotor_part(&self) -> (r: Rotor)
        ensures
            r == self.rotor_of(),
    {
        Rotor { s: self.s, e12: self.e12, e13: self.e13, e23: self.e23 }
    }

    /// The reverse of this motion, which undoes it where it is a unit
    /// motion.
    pub fn reverse(&self) -> (r: Transform)
        ensures
            r == self.reversed(),
    {
        Transform {
            s: self.s,
            e12: self.e12.neg(),
            e13: self.e13.neg(),
            e23: self.e23.neg(),
            e01: self.e01.neg(),
            e02: self.e02.neg(),
            e03: self.e03.neg(),
            e0123: self.e0123,
        }
    }
}

} // verus!
