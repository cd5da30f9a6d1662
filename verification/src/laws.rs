//! Laws of the algebra of motions.
//!
//! Sums and products are rounded, so a law of the algebra holds of the
//! numbers here only where no rounding comes between. The laws below are
//! those that hold exactly: the ones in which every term that the law adds
//! is a zero or one of the operands. Two results are then alike: the same
//! pattern, or the same number, which differ only where both are zeros of
//! different signs.

use vstd::prelude::*;
use crate::rotor::{product3, twice3, Rotor, TWO};
use crate::single::Single;
use crate::transform::{minus_twice2, twice2, Transform, MINUS_TWO};
use crate::vector3::Vector3;

verus! {

impl Single {
    /// The double of the number is finite, and so is the number.
    pub open spec fn doubles(self) -> bool {
        (Single { bits: TWO }).product(self).finite()
    }

    /// Minus two times a number is finite where two times it is.
    pub proof fn lemma_minus_twice_is_finite(self)
        requires
            self.doubles(),
        ensures
            (Single { bits: MINUS_TWO }).product(self).finite(),
    {
        reveal(Single::product);
        crate::exact::lemma_signed_magnitude();
        let two = Single { bits: TWO };
        let minus_two = Single { bits: MINUS_TWO };
        assert(two.magnitude() == minus_two.magnitude());
        assert(two.significand() == minus_two.significand());
        assert(two.scale() == minus_two.scale());
    }
}

impl Rotor {
    /// All four coefficients are finite numbers.
    pub open spec fn finite(self) -> bool {
        self.s.finite() && self.e12.finite() && self.e13.finite() && self.e23.finite()
    }

    /// The doubles of all four coefficients are finite numbers.
    pub open spec fn doubles(self) -> bool {
        self.s.doubles() && self.e12.doubles() && self.e13.doubles() && self.e23.doubles()
    }

    /// Coefficient by coefficient the same pattern or the same number.
    pub open spec fn alike(self, other: Rotor) -> bool {
        self.s.alike(other.s) && self.e12.alike(other.e12) && self.e13.alike(other.e13)
            && self.e23.alike(other.e23)
    }
}

impl Vector3 {
    /// Coordinate by coordinate the same pattern or the same number.
    pub open spec fn alike(self, other: Vector3) -> bool {
        self.x.alike(other.x) && self.y.alike(other.y) && self.z.alike(other.z)
    }
}

impl Transform {
    /// All eight coefficients are finite numbers.
    pub open spec fn finite(self) -> bool {
        self.s.finite() && self.e12.finite() && self.e13.finite() && self.e23.finite()
            && self.e01.finite() && self.e02.finite() && self.e03.finite() && self.e0123.finite()
    }

    /// Coefficient by coefficient the same pattern or the same number.
    pub open spec fn alike(self, other: Transform) -> bool {
        self.s.alike(other.s) && self.e12.alike(other.e12) && self.e13.alike(other.e13)
            && self.e23.alike(other.e23) && self.e01.alike(other.e01) && self.e02.alike(other.e02)
            && self.e03.alike(other.e03) && self.e0123.alike(other.e0123)
    }


    /// The identity after a motion is that motion: for a motion `t` of
    /// finite coefficients, `t.then(identity)` is alike to `t`.
    pub proof fn lemma_then_identity(self)
        requires
            self.finite(),
        ensures
            Transform::identity_of().composed(self).alike(self),
    {
        let motion = self;
        let identity = Transform::identity_of();
        assert(identity.s.bits == crate::vector3::ONE);
        assert(identity.e12.zero() && identity.e13.zero() && identity.e23.zero()
            && identity.e01.zero() && identity.e02.zero() && identity.e03.zero()
            && identity.e0123.zero());
        let composed = identity.composed(motion);
        assert(composed.s.alike(motion.s)) by {
            let term0 = identity.s.product(motion.s);
            motion.s.lemma_one_times();
            let acc0 = term0;
            let term1 = identity.e12.product(motion.e12);
            identity.e12.lemma_zero_times(motion.e12);
            let acc1 = acc0.difference(term1);
            acc0.lemma_zero_keeps(motion.s, term1);
            let term2 = identity.e13.product(motion.e13);
            identity.e13.lemma_zero_times(motion.e13);
            let acc2 = acc1.difference(term2);
            acc1.lemma_zero_keeps(motion.s, term2);
            let term3 = identity.e23.product(motion.e23);
            identity.e23.lemma_zero_times(motion.e23);
            let acc3 = acc2.difference(term3);
            acc2.lemma_zero_keeps(motion.s, term3);
            assert(composed.s == acc3);
        }
        assert(composed.e12.alike(motion.e12)) by {
            let term0 = identity.s.product(motion.e12);
            motion.e12.lemma_one_times();
            let acc0 = term0;
            let term1 = motion.s.product(identity.e12);
            identity.e12.lemma_zero_times(motion.s);
            let acc1 = acc0.sum(term1);
            acc0.lemma_zero_keeps(motion.e12, term1);
            let term2 = motion.e13.product(identity.e23);
            identity.e23.lemma_zero_times(motion.e13);
            let acc2 = acc1.sum(term2);
            acc1.lemma_zero_keeps(motion.e12, term2);
            let term3 = identity.e13.product(motion.e23);
            identity.e13.lemma_zero_times(motion.e23);
            let acc3 = acc2.difference(term3);
            acc2.lemma_zero_keeps(motion.e12, term3);
            assert(composed.e12 == acc3);
        }
        assert(composed.e13.alike(motion.e13)) by {
            let term0 = identity.s.product(motion.e13);
            motion.e13.lemma_one_times();
            let acc0 = term0;
            let term1 = motion.s.product(identity.e13);
            identity.e13.lemma_zero_times(motion.s);
            let acc1 = acc0.sum(term1);
            acc0.lemma_zero_keeps(motion.e13, term1);
            let term2 = identity.e12.product(motion.e23);
            identity.e12.lemma_zero_times(motion.e23);
            let acc2 = acc1.sum(term2);
            acc1.lemma_zero_keeps(motion.e13, term2);
            let term3 = motion.e12.product(identity.e23);
            identity.e23.lemma_zero_times(motion.e12);
            let acc3 = acc2.difference(term3);
            acc2.lemma_zero_keeps(motion.e13, term3);
            assert(composed.e13 == acc3);
        }
        assert(composed.e23.alike(motion.e23)) by {
            let term0 = identity.s.product(motion.e23);
            motion.e23.lemma_one_times();
            let acc0 = term0;
            let term1 = motion.s.product(identity.e23);
            identity.e23.lemma_zero_times(motion.s);
            let acc1 = acc0.sum(term1);
            acc0.lemma_zero_keeps(motion.e23, term1);
            let term2 = motion.e12.product(identity.e13);
            identity.e13.lemma_zero_times(motion.e12);
            let acc2 = acc1.sum(term2);
            acc1.lemma_zero_keeps(motion.e23, term2);
            let term3 = identity.e12.product(motion.e13);
            identity.e12.lemma_zero_times(motion.e13);
            let acc3 = acc2.difference(term3);
            acc2.lemma_zero_keeps(motion.e23, term3);
            assert(composed.e23 == acc3);
        }
        assert(composed.e01.alike(motion.e01)) by {
            let term0 = identity.s.product(motion.e01);
            motion.e01.lemma_one_times();
            let acc0 = term0;
            let term1 = motion.s.product(identity.e01);
            identity.e01.lemma_zero_times(motion.s);
            let acc1 = acc0.sum(term1);
            acc0.lemma_zero_keeps(motion.e01, term1);
            let term2 = identity.e12.product(motion.e02);
            identity.e12.lemma_zero_times(motion.e02);
            let acc2 = acc1.sum(term2);
            acc1.lemma_zero_keeps(motion.e01, term2);
            let term3 = identity.e13.product(motion.e03);
            identity.e13.lemma_zero_times(motion.e03);
            let acc3 = acc2.sum(term3);
            acc2.lemma_zero_keeps(motion.e01, term3);
            let term4 = motion.e12.product(identity.e02);
            identity.e02.lemma_zero_times(motion.e12);
            let acc4 = acc3.difference(term4);
            acc3.lemma_zero_keeps(motion.e01, term4);
            let term5 = motion.e13.product(identity.e03);
            identity.e03.lemma_zero_times(motion.e13);
            let acc5 = acc4.difference(term5);
            acc4.lemma_zero_keeps(motion.e01, term5);
            let term6 = identity.e23.product(motion.e0123);
            identity.e23.lemma_zero_times(motion.e0123);
            let acc6 = acc5.difference(term6);
            acc5.lemma_zero_keeps(motion.e01, term6);
            let term7 = motion.e23.product(identity.e0123);
            identity.e0123.lemma_zero_times(motion.e23);
            let acc7 = acc6.difference(term7);
            acc6.lemma_zero_keeps(motion.e01, term7);
            assert(composed.e01 == acc7);
        }
        assert(composed.e02.alike(motion.e02)) by {
            let term0 = identity.s.product(motion.e02);
            motion.e02.lemma_one_times();
            let acc0 = term0;
            let term1 = motion.s.product(identity.e02);
            identity.e02.lemma_zero_times(motion.s);
            let acc1 = acc0.sum(term1);
            acc0.lemma_zero_keeps(motion.e02, term1);
            let term2 = motion.e12.product(identity.e01);
            identity.e01.lemma_zero_times(motion.e12);
            let acc2 = acc1.sum(term2);
            acc1.lemma_zero_keeps(motion.e02, term2);
            let term3 = identity.e13.product(motion.e0123);
            identity.e13.lemma_zero_times(motion.e0123);
            let acc3 = acc2.sum(term3);
            acc2.lemma_zero_keeps(motion.e02, term3);
            let term4 = motion.e13.product(identity.e0123);
            identity.e0123.lemma_zero_times(motion.e13);
            let acc4 = acc3.sum(term4);
            acc3.lemma_zero_keeps(motion.e02, term4);
            let term5 = identity.e23.product(motion.e03);
            identity.e23.lemma_zero_times(motion.e03);
            let acc5 = acc4.sum(term5);
            acc4.lemma_zero_keeps(motion.e02, term5);
            let term6 = identity.e12.product(motion.e01);
            identity.e12.lemma_zero_times(motion.e01);
            let acc6 = acc5.difference(term6);
            acc5.lemma_zero_keeps(motion.e02, term6);
            let term7 = motion.e23.product(identity.e03);
            identity.e03.lemma_zero_times(motion.e23);
            let acc7 = acc6.difference(term7);
            acc6.lemma_zero_keeps(motion.e02, term7);
            assert(composed.e02 == acc7);
        }
        assert(composed.e03.alike(motion.e03)) by {
            let term0 = identity.s.product(motion.e03);
            motion.e03.lemma_one_times();
            let acc0 = term0;
            let term1 = motion.s.product(identity.e03);
            identity.e03.lemma_zero_times(motion.s);
            let acc1 = acc0.sum(term1);
            acc0.lemma_zero_keeps(motion.e03, term1);
            let term2 = motion.e13.product(identity.e01);
            identity.e01.lemma_zero_times(motion.e13);
            let acc2 = acc1.sum(term2);
            acc1.lemma_zero_keeps(motion.e03, term2);
            let term3 = motion.e23.product(identity.e02);
            identity.e02.lemma_zero_times(motion.e23);
            let acc3 = acc2.sum(term3);
            acc2.lemma_zero_keeps(motion.e03, term3);
            let term4 = identity.e12.product(motion.e0123);
            identity.e12.lemma_zero_times(motion.e0123);
            let acc4 = acc3.difference(term4);
            acc3.lemma_zero_keeps(motion.e03, term4);
            let term5 = motion.e12.product(identity.e0123);
            identity.e0123.lemma_zero_times(motion.e12);
            let acc5 = acc4.difference(term5);
            acc4.lemma_zero_keeps(motion.e03, term5);
            let term6 = identity.e13.product(motion.e01);
            identity.e13.lemma_zero_times(motion.e01);
            let acc6 = acc5.difference(term6);
            acc5.lemma_zero_keeps(motion.e03, term6);
            let term7 = identity.e23.product(motion.e02);
            identity.e23.lemma_zero_times(motion.e02);
            let acc7 = acc6.difference(term7);
            acc6.lemma_zero_keeps(motion.e03, term7);
            assert(composed.e03 == acc7);
        }
        assert(composed.e0123.alike(motion.e0123)) by {
            let term0 = identity.s.product(motion.e0123);
            motion.e0123.lemma_one_times();
            let acc0 = term0;
            let term1 = motion.s.product(identity.e0123);
            identity.e0123.lemma_zero_times(motion.s);
            let acc1 = acc0.sum(term1);
            acc0.lemma_zero_keeps(motion.e0123, term1);
            let term2 = identity.e12.product(motion.e03);
            identity.e12.lemma_zero_times(motion.e03);
            let acc2 = acc1.sum(term2);
            acc1.lemma_zero_keeps(motion.e0123, term2);
            let term3 = motion.e12.product(identity.e03);
            identity.e03.lemma_zero_times(motion.e12);
            let acc3 = acc2.sum(term3);
            acc2.lemma_zero_keeps(motion.e0123, term3);
            let term4 = identity.e23.product(motion.e01);
            identity.e23.lemma_zero_times(motion.e01);
            let acc4 = acc3.sum(term4);
            acc3.lemma_zero_keeps(motion.e0123, term4);
            let term5 = motion.e23.product(identity.e01);
            identity.e01.lemma_zero_times(motion.e23);
            let acc5 = acc4.sum(term5);
            acc4.lemma_zero_keeps(motion.e0123, term5);
            let term6 = identity.e13.product(motion.e02);
            identity.e13.lemma_zero_times(motion.e02);
            let acc6 = acc5.difference(term6);
            acc5.lemma_zero_keeps(motion.e0123, term6);
            let term7 = motion.e13.product(identity.e02);
            identity.e02.lemma_zero_times(motion.e13);
            let acc7 = acc6.difference(term7);
            acc6.lemma_zero_keeps(motion.e0123, term7);
            assert(composed.e0123 == acc7);
        }
    }

    /// A motion after the identity is that motion: for a motion `t` of
    /// finite coefficients, `identity.then(t)` is alike to `t`.
    pub proof fn lemma_identity_then(self)
        requires
            self.finite(),
        ensures
            self.composed(Transform::identity_of()).alike(self),
    {
        let motion = self;
        let identity = Transform::identity_of();
        assert(identity.s.bits == crate::vector3::ONE);
        assert(identity.e12.zero() && identity.e13.zero() && identity.e23.zero()
            && identity.e01.zero() && identity.e02.zero() && identity.e03.zero()
            && identity.e0123.zero());
        let composed = motion.composed(identity);
        assert(composed.s.alike(motion.s)) by {
            let term0 = motion.s.product(identity.s);
            motion.s.lemma_one_times();
            let acc0 = term0;
            let term1 = motion.e12.product(identity.e12);
            identity.e12.lemma_zero_times(motion.e12);
            let acc1 = acc0.difference(term1);
            acc0.lemma_zero_keeps(motion.s, term1);
            let term2 = motion.e13.product(identity.e13);
            identity.e13.lemma_zero_times(motion.e13);
            let acc2 = acc1.difference(term2);
            acc1.lemma_zero_keeps(motion.s, term2);
            let term3 = motion.e23.product(identity.e23);
            identity.e23.lemma_zero_times(motion.e23);
            let acc3 = acc2.difference(term3);
            acc2.lemma_zero_keeps(motion.s, term3);
            assert(composed.s == acc3);
        }
        assert(composed.e12.alike(motion.e12)) by {
            let term0 = motion.s.product(identity.e12);
            identity.e12.lemma_zero_times(motion.s);
            let acc0 = term0;
            let term1 = identity.s.product(motion.e12);
            motion.e12.lemma_one_times();
            let acc1 = acc0.sum(term1);
            acc0.lemma_zero_plus(term1);
            acc0.lemma_sum_is_proper(term1);
            let term2 = identity.e13.product(motion.e23);
            identity.e13.lemma_zero_times(motion.e23);
            let acc2 = acc1.sum(term2);
            acc1.lemma_zero_keeps(motion.e12, term2);
            let term3 = motion.e13.product(identity.e23);
            identity.e23.lemma_zero_times(motion.e13);
            let acc3 = acc2.difference(term3);
            acc2.lemma_zero_keeps(motion.e12, term3);
            assert(composed.e12 == acc3);
        }
        assert(composed.e13.alike(motion.e13)) by {
            let term0 = motion.s.product(identity.e13);
            identity.e13.lemma_zero_times(motion.s);
            let acc0 = term0;
            let term1 = identity.s.product(motion.e13);
            motion.e13.lemma_one_times();
            let acc1 = acc0.sum(term1);
            acc0.lemma_zero_plus(term1);
            acc0.lemma_sum_is_proper(term1);
            let term2 = motion.e12.product(identity.e23);
            identity.e23.lemma_zero_times(motion.e12);
            let acc2 = acc1.sum(term2);
            acc1.lemma_zero_keeps(motion.e13, term2);
            let term3 = identity.e12.product(motion.e23);
            identity.e12.lemma_zero_times(motion.e23);
            let acc3 = acc2.difference(term3);
            acc2.lemma_zero_keeps(motion.e13, term3);
            assert(composed.e13 == acc3);
        }
        assert(composed.e23.alike(motion.e23)) by {
            let term0 = motion.s.product(identity.e23);
            identity.e23.lemma_zero_times(motion.s);
            let acc0 = term0;
            let term1 = identity.s.product(motion.e23);
            motion.e23.lemma_one_times();
            let acc1 = acc0.sum(term1);
            acc0.lemma_zero_plus(term1);
            acc0.lemma_sum_is_proper(term1);
            let term2 = identity.e12.product(motion.e13);
            identity.e12.lemma_zero_times(motion.e13);
            let acc2 = acc1.sum(term2);
            acc1.lemma_zero_keeps(motion.e23, term2);
            let term3 = motion.e12.product(identity.e13);
            identity.e13.lemma_zero_times(motion.e12);
            let acc3 = acc2.difference(term3);
            acc2.lemma_zero_keeps(motion.e23, term3);
            assert(composed.e23 == acc3);
        }
        assert(composed.e01.alike(motion.e01)) by {
            let term0 = motion.s.product(identity.e01);
            identity.e01.lemma_zero_times(motion.s);
            let acc0 = term0;
            let term1 = identity.s.product(motion.e01);
            motion.e01.lemma_one_times();
            let acc1 = acc0.sum(term1);
            acc0.lemma_zero_plus(term1);
            acc0.lemma_sum_is_proper(term1);
            let term2 = motion.e12.product(identity.e02);
            identity.e02.lemma_zero_times(motion.e12);
            let acc2 = acc1.sum(term2);
            acc1.lemma_zero_keeps(motion.e01, term2);
            let term3 = motion.e13.product(identity.e03);
            identity.e03.lemma_zero_times(motion.e13);
            let acc3 = acc2.sum(term3);
            acc2.lemma_zero_keeps(motion.e01, term3);
            let term4 = identity.e12.product(motion.e02);
            identity.e12.lemma_zero_times(motion.e02);
            let acc4 = acc3.difference(term4);
            acc3.lemma_zero_keeps(motion.e01, term4);
            let term5 = identity.e13.product(motion.e03);
            identity.e13.lemma_zero_times(motion.e03);
            let acc5 = acc4.difference(term5);
            acc4.lemma_zero_keeps(motion.e01, term5);
            let term6 = motion.e23.product(identity.e0123);
            identity.e0123.lemma_zero_times(motion.e23);
            let acc6 = acc5.difference(term6);
            acc5.lemma_zero_keeps(motion.e01, term6);
            let term7 = identity.e23.product(motion.e0123);
            identity.e23.lemma_zero_times(motion.e0123);
            let acc7 = acc6.difference(term7);
            acc6.lemma_zero_keeps(motion.e01, term7);
            assert(composed.e01 == acc7);
        }
        assert(composed.e02.alike(motion.e02)) by {
            let term0 = motion.s.product(identity.e02);
            identity.e02.lemma_zero_times(motion.s);
            let acc0 = term0;
            let term1 = identity.s.product(motion.e02);
            motion.e02.lemma_one_times();
            let acc1 = acc0.sum(term1);
            acc0.lemma_zero_plus(term1);
            acc0.lemma_sum_is_proper(term1);
            let term2 = identity.e12.product(motion.e01);
            identity.e12.lemma_zero_times(motion.e01);
            let acc2 = acc1.sum(term2);
            acc1.lemma_zero_keeps(motion.e02, term2);
            let term3 = motion.e13.product(identity.e0123);
            identity.e0123.lemma_zero_times(motion.e13);
            let acc3 = acc2.sum(term3);
            acc2.lemma_zero_keeps(motion.e02, term3);
            let term4 = identity.e13.product(motion.e0123);
            identity.e13.lemma_zero_times(motion.e0123);
            let acc4 = acc3.sum(term4);
            acc3.lemma_zero_keeps(motion.e02, term4);
            let term5 = motion.e23.product(identity.e03);
            identity.e03.lemma_zero_times(motion.e23);
            let acc5 = acc4.sum(term5);
            acc4.lemma_zero_keeps(motion.e02, term5);
            let term6 = motion.e12.product(identity.e01);
            identity.e01.lemma_zero_times(motion.e12);
            let acc6 = acc5.difference(term6);
            acc5.lemma_zero_keeps(motion.e02, term6);
            let term7 = identity.e23.product(motion.e03);
            identity.e23.lemma_zero_times(motion.e03);
            let acc7 = acc6.difference(term7);
            acc6.lemma_zero_keeps(motion.e02, term7);
            assert(composed.e02 == acc7);
        }
        assert(composed.e03.alike(motion.e03)) by {
            let term0 = motion.s.product(identity.e03);
            identity.e03.lemma_zero_times(motion.s);
            let acc0 = term0;
            let term1 = identity.s.product(motion.e03);
            motion.e03.lemma_one_times();
            let acc1 = acc0.sum(term1);
            acc0.lemma_zero_plus(term1);
            acc0.lemma_sum_is_proper(term1);
            let term2 = identity.e13.product(motion.e01);
            identity.e13.lemma_zero_times(motion.e01);
            let acc2 = acc1.sum(term2);
            acc1.lemma_zero_keeps(motion.e03, term2);
            let term3 = identity.e23.product(motion.e02);
            identity.e23.lemma_zero_times(motion.e02);
            let acc3 = acc2.sum(term3);
            acc2.lemma_zero_keeps(motion.e03, term3);
            let term4 = motion.e12.product(identity.e0123);
            identity.e0123.lemma_zero_times(motion.e12);
            let acc4 = acc3.difference(term4);
            acc3.lemma_zero_keeps(motion.e03, term4);
            let term5 = identity.e12.product(motion.e0123);
            identity.e12.lemma_zero_times(motion.e0123);
            let acc5 = acc4.difference(term5);
            acc4.lemma_zero_keeps(motion.e03, term5);
            let term6 = motion.e13.product(identity.e01);
            identity.e01.lemma_zero_times(motion.e13);
            let acc6 = acc5.difference(term6);
            acc5.lemma_zero_keeps(motion.e03, term6);
            let term7 = motion.e23.product(identity.e02);
            identity.e02.lemma_zero_times(motion.e23);
            let acc7 = acc6.difference(term7);
            acc6.lemma_zero_keeps(motion.e03, term7);
            assert(composed.e03 == acc7);
        }
        assert(composed.e0123.alike(motion.e0123)) by {
            let term0 = motion.s.product(identity.e0123);
            identity.e0123.lemma_zero_times(motion.s);
            let acc0 = term0;
            let term1 = identity.s.product(motion.e0123);
            motion.e0123.lemma_one_times();
            let acc1 = acc0.sum(term1);
            acc0.lemma_zero_plus(term1);
            acc0.lemma_sum_is_proper(term1);
            let term2 = motion.e12.product(identity.e03);
            identity.e03.lemma_zero_times(motion.e12);
            let acc2 = acc1.sum(term2);
            acc1.lemma_zero_keeps(motion.e0123, term2);
            let term3 = identity.e12.product(motion.e03);
            identity.e12.lemma_zero_times(motion.e03);
            let acc3 = acc2.sum(term3);
            acc2.lemma_zero_keeps(motion.e0123, term3);
            let term4 = motion.e23.product(identity.e01);
            identity.e01.lemma_zero_times(motion.e23);
            let acc4 = acc3.sum(term4);
            acc3.lemma_zero_keeps(motion.e0123, term4);
            let term5 = identity.e23.product(motion.e01);
            identity.e23.lemma_zero_times(motion.e01);
            let acc5 = acc4.sum(term5);
            acc4.lemma_zero_keeps(motion.e0123, term5);
            let term6 = motion.e13.product(identity.e02);
            identity.e02.lemma_zero_times(motion.e13);
            let acc6 = acc5.difference(term6);
            acc5.lemma_zero_keeps(motion.e0123, term6);
            let term7 = identity.e13.product(motion.e02);
            identity.e13.lemma_zero_times(motion.e02);
            let acc7 = acc6.difference(term7);
            acc6.lemma_zero_keeps(motion.e0123, term7);
            assert(composed.e0123 == acc7);
        }
    }

    /// The e01 coefficient of the product of two rotors as motions is a
    /// zero.
    proof fn lemma_from_rotor_then_e01(r: Rotor, q: Rotor)
        requires
            r.finite(),
            q.finite(),
        ensures
            Transform::of_rotor(q).composed(Transform::of_rotor(r)).e01.zero(),
    {
        let first = Transform::of_rotor(q);
        let second = Transform::of_rotor(r);
        let composed = first.composed(second);
        assert(first.e01.zero() && first.e02.zero() && first.e03.zero() && first.e0123.zero());
        assert(second.e01.zero() && second.e02.zero() && second.e03.zero() && second.e0123.zero());
        let term0 = first.s.product(second.e01);
        second.e01.lemma_zero_times(first.s);
        let acc0 = term0;
        let term1 = second.s.product(first.e01);
        first.e01.lemma_zero_times(second.s);
        let acc1 = acc0.sum(term1);
        acc0.lemma_zeros_add_to_zero(term1);
        let term2 = first.e12.product(second.e02);
        second.e02.lemma_zero_times(first.e12);
        let acc2 = acc1.sum(term2);
        acc1.lemma_zeros_add_to_zero(term2);
        let term3 = first.e13.product(second.e03);
        second.e03.lemma_zero_times(first.e13);
        let acc3 = acc2.sum(term3);
        acc2.lemma_zeros_add_to_zero(term3);
        let term4 = second.e12.product(first.e02);
        first.e02.lemma_zero_times(second.e12);
        let acc4 = acc3.difference(term4);
        acc3.lemma_zeros_add_to_zero(term4);
        let term5 = second.e13.product(first.e03);
        first.e03.lemma_zero_times(second.e13);
        let acc5 = acc4.difference(term5);
        acc4.lemma_zeros_add_to_zero(term5);
        let term6 = first.e23.product(second.e0123);
        second.e0123.lemma_zero_times(first.e23);
        let acc6 = acc5.difference(term6);
        acc5.lemma_zeros_add_to_zero(term6);
        let term7 = second.e23.product(first.e0123);
        first.e0123.lemma_zero_times(second.e23);
        let acc7 = acc6.difference(term7);
        acc6.lemma_zeros_add_to_zero(term7);
        assert(composed.e01 == acc7);
    }

    /// The e02 coefficient of the product of two rotors as motions is a
    /// zero.
    proof fn lemma_from_rotor_then_e02(r: Rotor, q: Rotor)
        requires
            r.finite(),
            q.finite(),
        ensures
            Transform::of_rotor(q).composed(Transform::of_rotor(r)).e02.zero(),
    {
        let first = Transform::of_rotor(q);
        let second = Transform::of_rotor(r);
        let composed = first.composed(second);
        assert(first.e01.zero() && first.e02.zero() && first.e03.zero() && first.e0123.zero());
        assert(second.e01.zero() && second.e02.zero() && second.e03.zero() && second.e0123.zero());
        let term0 = first.s.product(second.e02);
        second.e02.lemma_zero_times(first.s);
        let acc0 = term0;
        let term1 = second.s.product(first.e02);
        first.e02.lemma_zero_times(second.s);
        let acc1 = acc0.sum(term1);
        acc0.lemma_zeros_add_to_zero(term1);
        let term2 = second.e12.product(first.e01);
        first.e01.lemma_zero_times(second.e12);
        let acc2 = acc1.sum(term2);
        acc1.lemma_zeros_add_to_zero(term2);
        let term3 = first.e13.product(second.e0123);
        second.e0123.lemma_zero_times(first.e13);
        let acc3 = acc2.sum(term3);
        acc2.lemma_zeros_add_to_zero(term3);
        let term4 = second.e13.product(first.e0123);
        first.e0123.lemma_zero_times(second.e13);
        let acc4 = acc3.sum(term4);
        acc3.lemma_zeros_add_to_zero(term4);
        let term5 = first.e23.product(second.e03);
        second.e03.lemma_zero_times(first.e23);
        let acc5 = acc4.sum(term5);
        acc4.lemma_zeros_add_to_zero(term5);
        let term6 = first.e12.product(second.e01);
        second.e01.lemma_zero_times(first.e12);
        let acc6 = acc5.difference(term6);
        acc5.lemma_zeros_add_to_zero(term6);
        let term7 = second.e23.product(first.e03);
        first.e03.lemma_zero_times(second.e23);
        let acc7 = acc6.difference(term7);
        acc6.lemma_zeros_add_to_zero(term7);
        assert(composed.e02 == acc7);
    }

    /// The e03 coefficient of the product of two rotors as motions is a
    /// zero.
    proof fn lemma_from_rotor_then_e03(r: Rotor, q: Rotor)
        requires
            r.finite(),
            q.finite(),
        ensures
            Transform::of_rotor(q).composed(Transform::of_rotor(r)).e03.zero(),
    {
        let first = Transform::of_rotor(q);
        let second = Transform::of_rotor(r);
        let composed = first.composed(second);
        assert(first.e01.zero() && first.e02.zero() && first.e03.zero() && first.e0123.zero());
        assert(second.e01.zero() && second.e02.zero() && second.e03.zero() && second.e0123.zero());
        let term0 = first.s.product(second.e03);
        second.e03.lemma_zero_times(first.s);
        let acc0 = term0;
        let term1 = second.s.product(first.e03);
        first.e03.lemma_zero_times(second.s);
        let acc1 = acc0.sum(term1);
        acc0.lemma_zeros_add_to_zero(term1);
        let term2 = second.e13.product(first.e01);
        first.e01.lemma_zero_times(second.e13);
        let acc2 = acc1.sum(term2);
        acc1.lemma_zeros_add_to_zero(term2);
        let term3 = second.e23.product(first.e02);
        first.e02.lemma_zero_times(second.e23);
        let acc3 = acc2.sum(term3);
        acc2.lemma_zeros_add_to_zero(term3);
        let term4 = first.e12.product(second.e0123);
        second.e0123.lemma_zero_times(first.e12);
        let acc4 = acc3.difference(term4);
        acc3.lemma_zeros_add_to_zero(term4);
        let term5 = second.e12.product(first.e0123);
        first.e0123.lemma_zero_times(second.e12);
        let acc5 = acc4.difference(term5);
        acc4.lemma_zeros_add_to_zero(term5);
        let term6 = first.e13.product(second.e01);
        second.e01.lemma_zero_times(first.e13);
        let acc6 = acc5.difference(term6);
        acc5.lemma_zeros_add_to_zero(term6);
        let term7 = first.e23.product(second.e02);
        second.e02.lemma_zero_times(first.e23);
        let acc7 = acc6.difference(term7);
        acc6.lemma_zeros_add_to_zero(term7);
        assert(composed.e03 == acc7);
    }

    /// The e0123 coefficient of the product of two rotors as motions is a
    /// zero.
    proof fn lemma_from_rotor_then_e0123(r: Rotor, q: Rotor)
        requires
            r.finite(),
            q.finite(),
        ensures
            Transform::of_rotor(q).composed(Transform::of_rotor(r)).e0123.zero(),
    {
        let first = Transform::of_rotor(q);
        let second = Transform::of_rotor(r);
        let composed = first.composed(second);
        assert(first.e01.zero() && first.e02.zero() && first.e03.zero() && first.e0123.zero());
        assert(second.e01.zero() && second.e02.zero() && second.e03.zero() && second.e0123.zero());
        let term0 = first.s.product(second.e0123);
        second.e0123.lemma_zero_times(first.s);
        let acc0 = term0;
        let term1 = second.s.product(first.e0123);
        first.e0123.lemma_zero_times(second.s);
        let acc1 = acc0.sum(term1);
        acc0.lemma_zeros_add_to_zero(term1);
        let term2 = first.e12.product(second.e03);
        second.e03.lemma_zero_times(first.e12);
        let acc2 = acc1.sum(term2);
        acc1.lemma_zeros_add_to_zero(term2);
        let term3 = second.e12.product(first.e03);
        first.e03.lemma_zero_times(second.e12);
        let acc3 = acc2.sum(term3);
        acc2.lemma_zeros_add_to_zero(term3);
        let term4 = first.e23.product(second.e01);
        second.e01.lemma_zero_times(first.e23);
        let acc4 = acc3.sum(term4);
        acc3.lemma_zeros_add_to_zero(term4);
        let term5 = second.e23.product(first.e01);
        first.e01.lemma_zero_times(second.e23);
        let acc5 = acc4.sum(term5);
        acc4.lemma_zeros_add_to_zero(term5);
        let term6 = first.e13.product(second.e02);
        second.e02.lemma_zero_times(first.e13);
        let acc6 = acc5.difference(term6);
        acc5.lemma_zeros_add_to_zero(term6);
        let term7 = second.e13.product(first.e02);
        first.e02.lemma_zero_times(second.e13);
        let acc7 = acc6.difference(term7);
        acc6.lemma_zeros_add_to_zero(term7);
        assert(composed.e0123 == acc7);
    }

    /// Rotors compose alike as motions: for rotors `r` and `q` of finite
    /// coefficients, `from_rotor(r).then(from_rotor(q))` is alike to
    /// `from_rotor(r.then(q))`.
    pub proof fn lemma_from_rotor_then(r: Rotor, q: Rotor)
        requires
            r.finite(),
            q.finite(),
        ensures
            Transform::of_rotor(q).composed(Transform::of_rotor(r)).alike(
                Transform::of_rotor(q.composed(r)),
            ),
    {
        let composed = Transform::of_rotor(q).composed(Transform::of_rotor(r));
        let expected = Transform::of_rotor(q.composed(r));
        assert(composed.s == expected.s);
        assert(composed.e12 == expected.e12);
        assert(composed.e13 == expected.e13);
        assert(composed.e23 == expected.e23);
        Transform::lemma_from_rotor_then_e01(r, q);
        Transform::lemma_from_rotor_then_e02(r, q);
        Transform::lemma_from_rotor_then_e03(r, q);
        Transform::lemma_from_rotor_then_e0123(r, q);
        let zero = Single { bits: 0 };
        assert(expected.e01 == zero && expected.e02 == zero && expected.e03 == zero
            && expected.e0123 == zero);
        zero.lemma_weight_of_zero();
        composed.e01.lemma_weight_of_zero();
        composed.e02.lemma_weight_of_zero();
        composed.e03.lemma_weight_of_zero();
        composed.e0123.lemma_weight_of_zero();
    }

    /// The e012 coefficient of a point is alike under a rotor and under
    /// the rotor as a motion.
    proof fn lemma_from_rotor_moves_e012(rotor: Rotor, point: Vector3)
        requires
            rotor.doubles(),
        ensures
            Transform::of_rotor(rotor).moved_e012(point).alike(rotor.turned_e012(point)),
    {
        let zero = Single { bits: 0 };
        assert(zero.zero());
        rotor.s.lemma_minus_twice_is_finite();
        zero.lemma_zero_times((Single { bits: MINUS_TWO }).product(rotor.s));
        let nil0 = minus_twice2(rotor.s, zero);
        let lead0 = nil0;
        zero.lemma_zero_times((Single { bits: TWO }).product(rotor.e12));
        let nil1 = twice2(rotor.e12, zero);
        let lead1 = lead0.difference(nil1);
        lead0.lemma_zeros_add_to_zero(nil1);
        zero.lemma_zero_times((Single { bits: TWO }).product(rotor.e13));
        let nil2 = twice2(rotor.e13, zero);
        let lead2 = lead1.difference(nil2);
        lead1.lemma_zeros_add_to_zero(nil2);
        zero.lemma_zero_times((Single { bits: TWO }).product(rotor.e23));
        let nil3 = twice2(rotor.e23, zero);
        let lead3 = lead2.difference(nil3);
        lead2.lemma_zeros_add_to_zero(nil3);
        let term0 = product3(rotor.e13, rotor.e13, point.z);
        let full0 = lead3.sum(term0);
        let bare0 = term0;
        lemma_products_are_proper();
        lead3.lemma_zero_plus(term0);
        let term1 = product3(rotor.e23, rotor.e23, point.z);
        let full1 = full0.sum(term1);
        let bare1 = bare0.sum(term1);
        full0.lemma_alike_sums(bare0, term1);
        let term2 = twice3(rotor.s, rotor.e13, point.x);
        let full2 = full1.difference(term2);
        let bare2 = bare1.difference(term2);
        full1.lemma_alike_sums(bare1, term2);
        let term3 = twice3(rotor.s, rotor.e23, point.y);
        let full3 = full2.difference(term3);
        let bare3 = bare2.difference(term3);
        full2.lemma_alike_sums(bare2, term3);
        let term4 = twice3(rotor.e12, rotor.e23, point.x);
        let full4 = full3.difference(term4);
        let bare4 = bare3.difference(term4);
        full3.lemma_alike_sums(bare3, term4);
        let term5 = product3(rotor.s, rotor.s, point.z);
        let full5 = full4.difference(term5);
        let bare5 = bare4.difference(term5);
        full4.lemma_alike_sums(bare4, term5);
        let term6 = product3(rotor.e12, rotor.e12, point.z);
        let full6 = full5.difference(term6);
        let bare6 = bare5.difference(term6);
        full5.lemma_alike_sums(bare5, term6);
        let term7 = twice3(rotor.e12, rotor.e13, point.y);
        let full7 = full6.sum(term7);
        let bare7 = bare6.sum(term7);
        full6.lemma_alike_sums(bare6, term7);
        assert(Transform::of_rotor(rotor).moved_e012(point) == full7);
        assert(rotor.turned_e012(point) == bare7);
    }

    /// The e013 coefficient of a point is alike under a rotor and under
    /// the rotor as a motion.
    proof fn lemma_from_rotor_moves_e013(rotor: Rotor, point: Vector3)
        requires
            rotor.doubles(),
        ensures
            Transform::of_rotor(rotor).moved_e013(point).alike(rotor.turned_e013(point)),
    {
        let zero = Single { bits: 0 };
        assert(zero.zero());
        rotor.e13.lemma_minus_twice_is_finite();
        zero.lemma_zero_times((Single { bits: MINUS_TWO }).product(rotor.e13));
        let nil0 = minus_twice2(rotor.e13, zero);
        let lead0 = nil0;
        zero.lemma_zero_times((Single { bits: TWO }).product(rotor.e23));
        let nil1 = twice2(rotor.e23, zero);
        let lead1 = lead0.difference(nil1);
        lead0.lemma_zeros_add_to_zero(nil1);
        zero.lemma_zero_times((Single { bits: TWO }).product(rotor.s));
        let nil2 = twice2(rotor.s, zero);
        let lead2 = lead1.sum(nil2);
        lead1.lemma_zeros_add_to_zero(nil2);
        zero.lemma_zero_times((Single { bits: TWO }).product(rotor.e12));
        let nil3 = twice2(rotor.e12, zero);
        let lead3 = lead2.sum(nil3);
        lead2.lemma_zeros_add_to_zero(nil3);
        let term0 = product3(rotor.s, rotor.s, point.y);
        let full0 = lead3.sum(term0);
        let bare0 = term0;
        lemma_products_are_proper();
        lead3.lemma_zero_plus(term0);
        let term1 = product3(rotor.e13, rotor.e13, point.y);
        let full1 = full0.sum(term1);
        let bare1 = bare0.sum(term1);
        full0.lemma_alike_sums(bare0, term1);
        let term2 = twice3(rotor.s, rotor.e23, point.z);
        let full2 = full1.difference(term2);
        let bare2 = bare1.difference(term2);
        full1.lemma_alike_sums(bare1, term2);
        let term3 = twice3(rotor.e12, rotor.e13, point.z);
        let full3 = full2.difference(term3);
        let bare3 = bare2.difference(term3);
        full2.lemma_alike_sums(bare2, term3);
        let term4 = twice3(rotor.e13, rotor.e23, point.x);
        let full4 = full3.difference(term4);
        let bare4 = bare3.difference(term4);
        full3.lemma_alike_sums(bare3, term4);
        let term5 = product3(rotor.e12, rotor.e12, point.y);
        let full5 = full4.difference(term5);
        let bare5 = bare4.difference(term5);
        full4.lemma_alike_sums(bare4, term5);
        let term6 = product3(rotor.e23, rotor.e23, point.y);
        let full6 = full5.difference(term6);
        let bare6 = bare5.difference(term6);
        full5.lemma_alike_sums(bare5, term6);
        let term7 = twice3(rotor.s, rotor.e12, point.x);
        let full7 = full6.sum(term7);
        let bare7 = bare6.sum(term7);
        full6.lemma_alike_sums(bare6, term7);
        assert(Transform::of_rotor(rotor).moved_e013(point) == full7);
        assert(rotor.turned_e013(point) == bare7);
    }

    /// The e023 coefficient of a point is alike under a rotor and under
    /// the rotor as a motion.
    proof fn lemma_from_rotor_moves_e023(rotor: Rotor, point: Vector3)
        requires
            rotor.doubles(),
        ensures
            Transform::of_rotor(rotor).moved_e023(point).alike(rotor.turned_e023(point)),
    {
        let zero = Single { bits: 0 };
        assert(zero.zero());
        rotor.s.lemma_minus_twice_is_finite();
        zero.lemma_zero_times((Single { bits: MINUS_TWO }).product(rotor.s));
        let nil0 = minus_twice2(rotor.s, zero);
        let lead0 = nil0;
        zero.lemma_zero_times((Single { bits: TWO }).product(rotor.e23));
        let nil1 = twice2(rotor.e23, zero);
        let lead1 = lead0.difference(nil1);
        lead0.lemma_zeros_add_to_zero(nil1);
        zero.lemma_zero_times((Single { bits: TWO }).product(rotor.e12));
        let nil2 = twice2(rotor.e12, zero);
        let lead2 = lead1.sum(nil2);
        lead1.lemma_zeros_add_to_zero(nil2);
        zero.lemma_zero_times((Single { bits: TWO }).product(rotor.e13));
        let nil3 = twice2(rotor.e13, zero);
        let lead3 = lead2.sum(nil3);
        lead2.lemma_zeros_add_to_zero(nil3);
        let term0 = product3(rotor.e12, rotor.e12, point.x);
        let full0 = lead3.sum(term0);
        let bare0 = term0;
        lemma_products_are_proper();
        lead3.lemma_zero_plus(term0);
        let term1 = product3(rotor.e13, rotor.e13, point.x);
        let full1 = full0.sum(term1);
        let bare1 = bare0.sum(term1);
        full0.lemma_alike_sums(bare0, term1);
        let term2 = twice3(rotor.e12, rotor.e23, point.z);
        let full2 = full1.difference(term2);
        let bare2 = bare1.difference(term2);
        full1.lemma_alike_sums(bare1, term2);
        let term3 = product3(rotor.s, rotor.s, point.x);
        let full3 = full2.difference(term3);
        let bare3 = bare2.difference(term3);
        full2.lemma_alike_sums(bare2, term3);
        let term4 = product3(rotor.e23, rotor.e23, point.x);
        let full4 = full3.difference(term4);
        let bare4 = bare3.difference(term4);
        full3.lemma_alike_sums(bare3, term4);
        let term5 = twice3(rotor.s, rotor.e12, point.y);
        let full5 = full4.sum(term5);
        let bare5 = bare4.sum(term5);
        full4.lemma_alike_sums(bare4, term5);
        let term6 = twice3(rotor.s, rotor.e13, point.z);
        let full6 = full5.sum(term6);
        let bare6 = bare5.sum(term6);
        full5.lemma_alike_sums(bare5, term6);
        let term7 = twice3(rotor.e13, rotor.e23, point.y);
        let full7 = full6.sum(term7);
        let bare7 = bare6.sum(term7);
        full6.lemma_alike_sums(bare6, term7);
        assert(Transform::of_rotor(rotor).moved_e023(point) == full7);
        assert(rotor.turned_e023(point) == bare7);
    }

    /// A rotor moves a point alike as a motion: for a rotor `r` whose
    /// coefficients have finite doubles, `from_rotor(r).transform_point(p)`
    /// is alike to `r.rotate(p)`.
    pub proof fn lemma_from_rotor_moves(rotor: Rotor, point: Vector3)
        requires
            rotor.doubles(),
        ensures
            Transform::of_rotor(rotor).moved(point).alike(rotor.turned(point)),
    {
        let motion = Transform::of_rotor(rotor);
        Transform::lemma_from_rotor_moves_e012(rotor, point);
        Transform::lemma_from_rotor_moves_e013(rotor, point);
        Transform::lemma_from_rotor_moves_e023(rotor, point);
        motion.moved_e023(point).lemma_alike_negated(rotor.turned_e023(point));
        motion.moved_e012(point).lemma_alike_negated(rotor.turned_e012(point));
    }
}

/// Every term that a rotor adds for a point is proper.
pub proof fn lemma_products_are_proper()
    ensures
        forall|p: Single, q: Single, r: Single| #[trigger] product3(p, q, r).proper(),
        forall|p: Single, q: Single, r: Single| #[trigger] twice3(p, q, r).proper(),
{
    assert forall|p: Single, q: Single, r: Single| #[trigger] product3(p, q, r).proper() by {
        p.product(q).lemma_product_is_proper(r);
    }
    assert forall|p: Single, q: Single, r: Single| #[trigger] twice3(p, q, r).proper() by {
        (Single { bits: TWO }).product(p).product(q).lemma_product_is_proper(r);
    }
}

} // verus!
