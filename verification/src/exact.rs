//! Where rounding changes nothing: the cases in which a sum or a product is
//! one of its operands, and the sense in which two results are the same
//! number.

use vstd::prelude::*;
use vstd::arithmetic::mul::lemma_mul_basics;
use vstd::arithmetic::power2::{lemma2_to64, lemma_pow2_pos, pow2};
use crate::arithmetic::{rounded_quotient, rounded_root, NOT_A_NUMBER};
use crate::rounding::{
    lemma_whole_root,
    digits,
    kept_digits,
    kept_scale,
    lemma_digits_bounds,
    lemma_digits_from_bounds,
    lemma_rounded_scaled,
    rounded,
};
use crate::single::Single;
use crate::vector3::ONE;

verus! {

impl Single {
    /// Both are numbers and they are equal. The two zeros are.
    pub open spec fn same_number(self, other: Single) -> bool {
        !self.undefined() && !other.undefined() && self.scaled() == other.scaled()
    }

    /// The same pattern, or the same number.
    pub open spec fn alike(self, other: Single) -> bool {
        self == other || self.same_number(other)
    }

    /// A number, or the one pattern that results give to what is none.
    pub open spec fn proper(self) -> bool {
        !self.undefined() || self.bits == NOT_A_NUMBER
    }

    /// A finite number rounds to itself.
    pub proof fn lemma_rounds_to_itself(self)
        requires
            self.finite(),
        ensures
            rounded(self.significand(), self.scale()) == self.magnitude(),
    {
        lemma2_to64();
        let d = self.significand();
        let s = self.scale();
        if d > 0 {
            if self.exponent() == 0 {
                lemma_digits_bounds(d);
                if digits(d) > 23 {
                    vstd::arithmetic::power2::lemma_pow2_strictly_increases(
                        23,
                        (digits(d) - 1) as nat,
                    );
                }
                assert(digits(d) <= 24);
            } else {
                lemma_digits_from_bounds(d, 24);
            }
            assert(kept_scale(d, s) == s);
            assert(d * pow2(0) == d) by (nonlinear_arith)
                requires
                    pow2(0) == 1,
            ;
            assert(kept_digits(d, s) == d);
        }
    }

    /// The numbers that are the same are the same pattern, but for the two
    /// zeros.
    pub proof fn lemma_same_number_same_magnitude(self, other: Single)
        requires
            self.same_number(other),
        ensures
            self.magnitude() == other.magnitude(),
            self.magnitude() != 0 ==> self == other,
    {
        self.lemma_order_of_weights(other);
        other.lemma_order_of_weights(self);
        self.lemma_weight_of_zero();
        other.lemma_weight_of_zero();
        let a = self.bits;
        let b = other.bits;
        assert(a % 0x8000_0000 == b % 0x8000_0000 && (a >= 0x8000_0000) == (b >= 0x8000_0000)
            ==> a == b);
    }

    /// A sum does not depend on the order of its terms.
    pub proof fn lemma_sum_commutes(self, other: Single)
        ensures
            self.sum(other) == other.sum(self),
    {
        reveal(Single::sum);
    }

    /// A product does not depend on the order of its factors.
    pub proof fn lemma_product_commutes(self, other: Single)
        ensures
            self.product(other) == other.product(self),
    {
        reveal(Single::product);
        assert(self.significand() * other.significand() == other.significand()
            * self.significand()) by (nonlinear_arith);
    }

    /// Every product is proper.
    pub proof fn lemma_product_is_proper(self, other: Single)
        ensures
            self.product(other).proper(),
    {
        reveal(Single::product);
        lemma_signed_magnitude();
    }

    /// Every sum is proper.
    pub proof fn lemma_sum_is_proper(self, other: Single)
        ensures
            self.sum(other).proper(),
    {
        reveal(Single::sum);
        lemma_signed_magnitude();
    }

    /// One times a number is that number.
    pub proof fn lemma_one_times(self)
        requires
            !self.undefined(),
        ensures
            (Single { bits: ONE }).product(self) == self,
            self.product(Single { bits: ONE }) == self,
    {
        reveal(Single::product);
        let one = Single { bits: ONE };
        lemma2_to64();
        lemma_signed_magnitude();
        assert(one.exponent() == 127 && one.fraction() == 0);
        assert(one.significand() == 0x80_0000 && one.scale() == 126);
        if self.finite() {
            let d = self.significand();
            let s = self.scale();
            self.lemma_rounds_to_itself();
            assert(d * 0x80_0000 == 0x80_0000 * d) by (nonlinear_arith);
            if d > 0 {
                vstd::arithmetic::power2::lemma_pow2_adds(0, 23);
                assert(pow2(23) == 0x80_0000);
                lemma_rounded_scaled(d, 23, s - 23);
            } else {
                assert(d * 0x80_0000 == 0) by (nonlinear_arith)
                    requires
                        d == 0,
                ;
            }
            assert(rounded(d * 0x80_0000, s + 126 - 149) == self.magnitude());
            assert(rounded(0x80_0000 * d, 126 + s - 149) == self.magnitude());
        }
        let a = self.bits;
        assert(a >= 0x8000_0000 ==> (a % 0x8000_0000 + 0x8000_0000) as u32 == a);
        assert(a < 0x8000_0000 ==> (a % 0x8000_0000) as u32 == a);
    }

    /// Zero times a finite number is a zero.
    pub proof fn lemma_zero_times(self, other: Single)
        requires
            self.zero(),
            other.finite(),
        ensures
            self.product(other).zero(),
            other.product(self).zero(),
    {
        reveal(Single::product);
        lemma_signed_magnitude();
        lemma_mul_basics(other.significand() as int);
        assert(self.significand() == 0);
    }

    /// A zero added to a proper pattern leaves it alike.
    pub proof fn lemma_zero_plus(self, other: Single)
        requires
            self.zero(),
            other.proper(),
        ensures
            self.sum(other).alike(other),
            other.sum(self).alike(other),
            other.difference(self).alike(other),
            other.zero() ==> self.sum(other).zero() && other.sum(self).zero() && other.difference(
                self,
            ).zero(),
    {
        reveal(Single::sum);
        lemma_signed_magnitude();
        self.lemma_weight_of_zero();
        self.negated().lemma_weight_of_zero();
        other.lemma_weight_of_zero();
        if other.finite() {
            other.lemma_rounds_to_itself();
            other.lemma_weight_of_parts();
            let d = other.significand();
            let s = other.scale();
            if d > 0 {
                lemma_rounded_scaled(d, s as nat, 0);
            }
            if other.weight() != 0 {
                assert(rounded(other.weight() as nat, 0) == other.magnitude());
            }
        }
        let a = other.bits;
        assert(a >= 0x8000_0000 ==> (a % 0x8000_0000 + 0x8000_0000) as u32 == a);
        assert(a < 0x8000_0000 ==> (a % 0x8000_0000) as u32 == a);
    }
}

impl Single {
    /// The sum and the difference of two zeros are zeros.
    pub proof fn lemma_zeros_add_to_zero(self, other: Single)
        requires
            self.zero(),
            other.zero(),
        ensures
            self.sum(other).zero(),
            self.difference(other).zero(),
    {
        reveal(Single::sum);
        lemma_signed_magnitude();
        self.lemma_weight_of_zero();
        other.lemma_weight_of_zero();
        other.negated().lemma_weight_of_zero();
    }

    /// What is alike stays alike when the same is added to it or taken from
    /// it.
    pub proof fn lemma_alike_sums(self, other: Single, term: Single)
        requires
            self.alike(other),
        ensures
            self.sum(term).alike(other.sum(term)),
            self.difference(term).alike(other.difference(term)),
    {
        reveal(Single::sum);
        if self != other {
            lemma_signed_magnitude();
            self.lemma_same_number_same_magnitude(other);
            self.lemma_weight_of_zero();
            other.lemma_weight_of_zero();
            term.lemma_weight_of_zero();
            term.negated().lemma_weight_of_zero();
        }
    }

    /// What is alike stays alike when its sign is turned.
    pub proof fn lemma_alike_negated(self, other: Single)
        requires
            self.alike(other),
        ensures
            self.negated().alike(other.negated()),
    {
        if self != other {
            self.lemma_same_number_same_magnitude(other);
            self.lemma_weight_of_zero();
            other.lemma_weight_of_zero();
            self.negated().lemma_weight_of_zero();
            other.negated().lemma_weight_of_zero();
        }
    }

    /// A zero added to, or taken from, what is alike to a pattern leaves it
    /// alike to that pattern.
    pub proof fn lemma_zero_keeps(self, target: Single, zero: Single)
        requires
            self.alike(target),
            self.proper(),
            zero.zero(),
        ensures
            self.sum(zero).alike(target),
            self.difference(zero).alike(target),
            self.sum(zero).proper(),
            self.difference(zero).proper(),
    {
        zero.lemma_zero_plus(self);
        self.lemma_sum_is_proper(zero);
        self.lemma_sum_is_proper(zero.negated());
    }
}

/// The digits kept of a quotient lie within half a step of the exact
/// quotient.
///
/// The quotient `n / d` is carried to 60 binary places and cut, with one
/// more digit set where a remainder was left. Rounding that at a scale of
/// `s` places gives `kept` steps of `2^s`. Twice the carried quotient is
/// `2 * n * 2^60 / d`, and `kept * 2^s` differs from it by no more than half
/// a step: here with both sides multiplied by `d`.
pub proof fn lemma_quotient_is_nearest(n: nat, d: nat, s: nat)
    requires
        d > 0,
        s >= 2,
    ensures
        ({
            let carried = n * pow2(60);
            let last: nat = if carried % d == 0 {
                0
            } else {
                1
            };
            let kept = crate::rounding::nearest_even(2 * (carried / d) + last, s);
            &&& 2 * (kept * pow2(s) * d - 2 * carried) <= pow2(s) * d
            &&& 2 * (2 * carried - kept * pow2(s) * d) <= pow2(s) * d
        }),
{
    let carried = (n * pow2(60)) as int;
    let q = carried / (d as int);
    let rem = carried % (d as int);
    let last: int = if rem == 0 {
        0
    } else {
        1
    };
    let cut = (2 * q + last) as nat;
    let kept = crate::rounding::nearest_even(cut, s) as int;
    let step = pow2(s) as int;
    let half = pow2((s - 1) as nat) as int;
    let quarter = pow2((s - 2) as nat) as int;
    lemma_pow2_pos((s - 2) as nat);
    vstd::arithmetic::power2::lemma_pow2_unfold(s);
    vstd::arithmetic::power2::lemma_pow2_unfold((s - 1) as nat);
    vstd::arithmetic::div_mod::lemma_fundamental_div_mod(carried, d as int);
    vstd::arithmetic::div_mod::lemma_mod_bound(carried, d as int);
    assert(q >= 0) by {
        vstd::arithmetic::div_mod::lemma_div_pos_is_pos(carried, d as int);
    }
    assert(carried == d * q + rem && 0 <= rem < d);
    crate::rounding::lemma_nearest_even_is_nearest(cut, s);
    let off = kept * step - cut;
    assert(2 * off <= step && -2 * off <= step);
    assert(kept * step == 2 * (kept * half)) by (nonlinear_arith)
        requires
            step == 2 * half,
    ;
    let reach: int = if last == 0 {
        half
    } else {
        half - 1
    };
    assert(-reach <= off <= reach) by {
        if last == 1 {
            let j = kept * half - q;
            assert(off == 2 * j - 1);
            assert(half == 2 * quarter);
        }
    }
    let skew = 2 * rem - last * d;
    assert(2 * carried == cut * d + skew) by (nonlinear_arith)
        requires
            carried == d * q + rem,
            cut == 2 * q + last,
            skew == 2 * rem - last * d,
    ;
    assert(kept * step * d - 2 * carried == off * d - skew) by (nonlinear_arith)
        requires
            off == kept * step - cut,
            2 * carried == cut * d + skew,
    ;
    assert(off * d <= reach * d && -(reach * d) <= off * d) by (nonlinear_arith)
        requires
            -reach <= off <= reach,
            d > 0,
    ;
    let slack: int = if last == 1 {
        d as int
    } else {
        0
    };
    assert(reach * d + slack == half * d) by (nonlinear_arith)
        requires
            (reach == half && slack == 0) || (reach == half - 1 && slack == d),
    ;
    assert(last == 1 ==> -d < skew < d) by (nonlinear_arith)
        requires
            skew == 2 * rem - last * d,
            0 <= rem < d,
            last == 1 ==> rem > 0,
    ;
    assert(last == 0 ==> skew == 0) by (nonlinear_arith)
        requires
            skew == 2 * rem - last * d,
            last == 0 ==> rem == 0,
    ;
    assert(step * d == 2 * (half * d)) by (nonlinear_arith)
        requires
            step == 2 * half,
    ;
}

/// The digits kept of a root lie within half a step of the exact root.
///
/// The root of `n` is carried to 30 binary places and cut, with one more
/// digit set where the root did not come out even. Rounding that at a scale
/// of `s` places gives `kept` steps of `2^s`. Twice the carried root is the
/// root of `4 * n * 2^60`, and it lies between `kept * 2^s` less half a step
/// and `kept * 2^s` plus half a step: here with all three squared.
pub proof fn lemma_root_is_nearest(n: nat, s: nat)
    requires
        s >= 2,
    ensures
        ({
            let carried = n * pow2(60);
            let whole = crate::rounding::whole_root(carried);
            let last: nat = if whole * whole == carried {
                0
            } else {
                1
            };
            let kept = crate::rounding::nearest_even(2 * whole + last, s);
            let low = kept * pow2(s) - pow2((s - 1) as nat);
            let high = kept * pow2(s) + pow2((s - 1) as nat);
            &&& low >= 0 ==> low * low <= 4 * carried
            &&& 4 * carried <= high * high
        }),
{
    let carried = (n * pow2(60)) as int;
    let whole = crate::rounding::whole_root(carried as nat) as int;
    crate::rounding::lemma_whole_root_exists(carried as nat);
    assert(whole * whole <= carried < (whole + 1) * (whole + 1));
    let last: int = if whole * whole == carried {
        0
    } else {
        1
    };
    let cut = (2 * whole + last) as nat;
    let kept = crate::rounding::nearest_even(cut, s) as int;
    let step = pow2(s) as int;
    let half = pow2((s - 1) as nat) as int;
    let quarter = pow2((s - 2) as nat) as int;
    lemma_pow2_pos((s - 2) as nat);
    vstd::arithmetic::power2::lemma_pow2_unfold(s);
    vstd::arithmetic::power2::lemma_pow2_unfold((s - 1) as nat);
    crate::rounding::lemma_nearest_even_is_nearest(cut, s);
    let off = kept * step - cut;
    assert(kept * step == 2 * (kept * half)) by (nonlinear_arith)
        requires
            step == 2 * half,
    ;
    if last == 1 {
        let j = kept * half - whole;
        assert(off == 2 * j - 1);
        assert(half == 2 * quarter);
    }
    let low = kept * step - half;
    let high = kept * step + half;
    assert(low <= 2 * whole);
    assert(high >= 2 * whole + 2 * last);
    assert(low >= 0 ==> low * low <= 4 * carried) by (nonlinear_arith)
        requires
            low <= 2 * whole,
            whole * whole <= carried,
            whole >= 0,
    ;
    assert(4 * carried <= high * high) by (nonlinear_arith)
        requires
            high >= 2 * whole + 2 * last,
            whole >= 0,
            carried < (whole + 1) * (whole + 1),
            last == 0 ==> carried == whole * whole,
            last == 0 || last == 1,
    ;
}

/// A quotient that comes out even is rounded as that whole number is.
pub proof fn lemma_even_quotient(q: nat, d: nat, t: int)
    requires
        q > 0,
        d > 0,
    ensures
        rounded_quotient(q * d, d, t) == rounded(q, t),
{
    let lift = pow2(60) as int;
    lemma_pow2_pos(60);
    let carried = (q * d) * pow2(60);
    assert(carried == (q * lift) * d + 0) by (nonlinear_arith)
        requires
            carried == (q * d) * lift,
    ;
    vstd::arithmetic::div_mod::lemma_fundamental_div_mod_converse(
        carried as int,
        d as int,
        q * lift,
        0,
    );
    vstd::arithmetic::power2::lemma_pow2_unfold(61);
    assert(2 * (q * lift) == q * pow2(61)) by (nonlinear_arith)
        requires
            pow2(61) == 2 * lift,
    ;
    lemma_rounded_scaled(q, 61, t - 61);
}

/// The root of a square is rounded as that whole number is.
pub proof fn lemma_even_root(r: nat, t: int)
    requires
        r > 0,
    ensures
        rounded_root(r * r, t) == rounded(r, t + 31),
{
    let lift = pow2(30) as int;
    lemma_pow2_pos(30);
    vstd::arithmetic::power2::lemma_pow2_adds(30, 30);
    vstd::arithmetic::power2::lemma_pow2_unfold(31);
    let carried = (r * r) * pow2(60);
    let whole = r * lift;
    assert(carried == whole * whole) by (nonlinear_arith)
        requires
            carried == (r * r) * (lift * lift),
            whole == r * lift,
    ;
    assert(whole * whole < (whole + 1) * (whole + 1)) by (nonlinear_arith)
        requires
            whole >= 0,
    ;
    lemma_whole_root(carried as nat, whole as nat);
    assert(2 * whole == r * pow2(31)) by (nonlinear_arith)
        requires
            whole == r * lift,
            pow2(31) == 2 * lift,
    ;
    lemma_rounded_scaled(r, 31, t);
}

/// A pattern made of a magnitude and a sign has that magnitude and that
/// sign.
pub proof fn lemma_signed_magnitude()
    ensures
        forall|magnitude: int, negative: bool|
            0 <= magnitude <= 0x7f80_0000 ==> (#[trigger] Single::signed(
                magnitude,
                negative,
            )).magnitude() == magnitude && Single::signed(magnitude, negative).negative()
                == negative,
        (Single { bits: NOT_A_NUMBER }).undefined(),
{
}

} // verus!
