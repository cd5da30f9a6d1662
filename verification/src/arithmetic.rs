//! Sums, products, quotients and roots in single precision.
//!
//! Each result is the exact sum, product, quotient or root, rounded once to
//! the nearest number of the format, a tie to the one whose last digit is
//! even. What is no number is always given the same pattern.

use vstd::prelude::*;
use vstd::arithmetic::div_mod::lemma_div_nonincreasing;
use vstd::arithmetic::mul::{
    lemma_mul_is_associative,
    lemma_mul_is_distributive_add_other_way,
    lemma_mul_is_distributive_sub_other_way,
    lemma_mul_strict_inequality,
    lemma_mul_upper_bound,
};
use vstd::arithmetic::power2::{
    lemma2_to64,
    lemma_pow2_adds,
    lemma_pow2_pos,
    lemma_pow2_strictly_increases,
    pow2,
};
use crate::rounding::{
    lemma_pow2_100,
    lemma_rounded_nearby,
    lemma_rounded_scaled,
    root_of,
    round_to_bits,
    rounded,
    two_to,
    whole_root,
};
use crate::single::{Single, INFINITE, SIGN_BIT};

verus! {

/// The pattern given to every result that is no number.
pub const NOT_A_NUMBER: u32 = 0x7fc0_0000;

/// The digits and the scale of a finite magnitude, such that the magnitude
/// stands for `digits * 2^scale` in units of 2^-149.
fn parts(magnitude: u32) -> (r: (u32, i32))
    requires
        magnitude < 0x7f80_0000,
    ensures
        r.0 == (Single { bits: magnitude }).significand(),
        r.1 == (Single { bits: magnitude }).scale(),
        r.0 < 0x100_0000,
        0 <= r.1 <= 253,
{
    let exponent = magnitude / 0x80_0000;
    let fraction = magnitude % 0x80_0000;
    if exponent == 0 {
        (fraction, 0)
    } else {
        (0x80_0000 + fraction, (exponent - 1) as i32)
    }
}

impl Single {
    /// The pattern stands for an infinity.
    pub open spec fn infinite(self) -> bool {
        self.magnitude() == 0x7f80_0000
    }

    /// The pattern stands for a finite number.
    pub open spec fn finite(self) -> bool {
        self.magnitude() < 0x7f80_0000
    }

    /// The pattern stands for zero.
    pub open spec fn zero(self) -> bool {
        self.magnitude() == 0
    }

    /// The digits of a finite number: its fraction, behind a leading one
    /// unless the exponent is zero.
    pub open spec fn significand(self) -> nat {
        if self.exponent() == 0 {
            self.fraction() as nat
        } else {
            (0x80_0000 + self.fraction()) as nat
        }
    }

    /// The scale of the last digit of a finite number, in units of 2^-149:
    /// the absolute value is `significand * 2^scale` such units.
    pub open spec fn scale(self) -> int {
        if self.exponent() == 0 {
            0
        } else {
            self.exponent() - 1
        }
    }

    /// The pattern of a magnitude with a sign.
    pub open spec fn signed(magnitude: int, negative: bool) -> Single {
        Single {
            bits: if negative {
                (magnitude + 0x8000_0000) as u32
            } else {
                magnitude as u32
            },
        }
    }

    /// The absolute value of a finite number is its digits at its scale.
    pub proof fn lemma_weight_of_parts(self)
        ensures
            self.weight() == self.significand() * pow2(self.scale() as nat),
            self.scale() >= 0,
    {
        lemma2_to64();
        let digits = self.significand() as int;
        if self.exponent() == 0 {
            assert(digits * 1 == digits) by (nonlinear_arith);
        }
    }

    /// The sum of two numbers, rounded once.
    ///
    /// No number comes of what is no number, nor of two infinities of
    /// opposite signs; an infinity added to anything else stays. The sum of
    /// finite numbers is their exact sum, rounded. An exact sum of zero is
    /// positive zero, unless both numbers are negative zeros.
    #[verifier::opaque]
    pub open spec fn sum(self, other: Single) -> Single {
        if self.undefined() || other.undefined() || (self.infinite() && other.infinite()
            && self.negative() != other.negative()) {
            Single { bits: NOT_A_NUMBER }
        } else if self.infinite() {
            Single::signed(0x7f80_0000, self.negative())
        } else if other.infinite() {
            Single::signed(0x7f80_0000, other.negative())
        } else {
            let exact = self.scaled() + other.scaled();
            if exact == 0 {
                Single::signed(0, self.negative() && other.negative())
            } else if exact < 0 {
                Single::signed(rounded((-exact) as nat, 0), true)
            } else {
                Single::signed(rounded(exact as nat, 0), false)
            }
        }
    }

    /// The difference of two numbers, rounded once: the sum of the first and
    /// the negated second.
    pub open spec fn difference(self, other: Single) -> Single {
        self.sum(other.negated())
    }

    /// The quotient of two numbers, rounded once.
    ///
    /// No number comes of what is no number, of zero by zero, nor of infinity
    /// by infinity. Any other quotient has the sign that the two signs give.
    /// It is infinite where the dividend is infinite or the divisor zero,
    /// zero where the dividend is zero or the divisor infinite, and else the
    /// quotient of the digits at the difference of the scales, rounded.
    #[verifier::opaque]
    pub open spec fn quotient(self, other: Single) -> Single {
        if self.undefined() || other.undefined() || (self.infinite() && other.infinite()) || (
        self.zero() && other.zero()) {
            Single { bits: NOT_A_NUMBER }
        } else {
            Single::signed(
                if self.infinite() || other.zero() {
                    0x7f80_0000
                } else if self.zero() || other.infinite() {
                    0
                } else {
                    rounded_quotient(
                        self.significand(),
                        other.significand(),
                        self.scale() - other.scale() + 149,
                    )
                },
                self.negative() != other.negative(),
            )
        }
    }

    /// The square root of a number, rounded once.
    ///
    /// No number comes of what is no number, nor of a number below zero. The
    /// root of a zero is that zero, the root of infinity is infinity, and
    /// any other root is the root of the digits at half the scale, rounded.
    #[verifier::opaque]
    pub open spec fn root(self) -> Single {
        if self.undefined() || (self.negative() && !self.zero()) {
            Single { bits: NOT_A_NUMBER }
        } else if self.zero() || self.infinite() {
            self
        } else {
            Single::signed(
                rounded_root(
                    if self.scale() % 2 == 1 {
                        self.significand()
                    } else {
                        2 * self.significand()
                    },
                    (self.scale() + 1) / 2 + 43,
                ),
                false,
            )
        }
    }

    /// The whole number `count` as a single-precision number, rounded where
    /// it has more than 24 digits.
    pub open spec fn of_count(count: u32) -> Single {
        Single::signed(rounded(count as nat, 149), false)
    }

    /// The small whole number `unit` as a single-precision number, exactly.
    pub open spec fn of_unit(unit: i8) -> Single {
        if unit < 0 {
            Single::signed(rounded((-unit) as nat, 149), true)
        } else {
            Single::signed(rounded(unit as nat, 149), false)
        }
    }

    /// The product of two numbers, rounded once.
    ///
    /// No number comes of what is no number, nor of zero times infinity. Any
    /// other product has the sign that the two signs give; it is infinite
    /// where a factor is, and else the exact product of the digits at the
    /// sum of the scales, rounded.
    #[verifier::opaque]
    pub open spec fn product(self, other: Single) -> Single {
        if self.undefined() || other.undefined() || (self.infinite() && other.zero()) || (
        self.zero() && other.infinite()) {
            Single { bits: NOT_A_NUMBER }
        } else {
            Single::signed(
                if self.infinite() || other.infinite() {
                    0x7f80_0000
                } else {
                    rounded(
                        self.significand() * other.significand(),
                        self.scale() + other.scale() - 149,
                    )
                },
                self.negative() != other.negative(),
            )
        }
    }

    /// Multiplies two numbers.
    pub fn times(&self, other: &Single) -> (r: Single)
        ensures
            r == self.product(*other),
    {
        reveal(Single::product);
        let a = self.magnitude_bits();
        let b = other.magnitude_bits();
        if a > INFINITE || b > INFINITE {
            return Single { bits: NOT_A_NUMBER };
        }
        if (a == INFINITE && b == 0) || (a == 0 && b == INFINITE) {
            return Single { bits: NOT_A_NUMBER };
        }
        let negative = (self.bits >= SIGN_BIT) != (other.bits >= SIGN_BIT);
        let magnitude: u32 = if a == INFINITE || b == INFINITE {
            INFINITE
        } else {
            let (digits_a, scale_a) = parts(a);
            let (digits_b, scale_b) = parts(b);
            proof {
                lemma2_to64();
                lemma_mul_upper_bound(digits_a as int, 0xff_ffff, digits_b as int, 0xff_ffff);
                lemma_pow2_strictly_increases(64, 100);
                assert((Single { bits: a }).significand() == self.significand());
                assert((Single { bits: b }).significand() == other.significand());
            }
            let exact: u128 = (digits_a as u128) * (digits_b as u128);
            round_to_bits(exact, scale_a + scale_b - 149)
        };
        if negative {
            Single { bits: magnitude + SIGN_BIT }
        } else {
            Single { bits: magnitude }
        }
    }
}

/// The magnitude pattern of `n / d * 2^t` rounded to single precision, for
/// a dividend and a divisor below 2^24.
///
/// The quotient is carried to 60 binary places behind the point and cut
/// there. One more digit is set where the division leaves a remainder, so
/// that what was cut still tells on which side of a tie the quotient lies.
pub open spec fn rounded_quotient(n: nat, d: nat, t: int) -> int {
    let carried = n * pow2(60);
    let last: nat = if carried % d == 0 {
        0
    } else {
        1
    };
    rounded(2 * (carried / d) + last, t - 61)
}

/// The magnitude pattern of the square root of `n`, times `2^(t - 29)`,
/// rounded to single precision, for a number below 2^25.
///
/// The root is carried to 30 binary places behind the point and cut there.
/// One more digit is set where the root does not come out even, so that what
/// was cut still tells on which side of a tie the root lies.
pub open spec fn rounded_root(n: nat, t: int) -> int {
    let carried = n * pow2(60);
    let whole = whole_root(carried);
    let last: nat = if whole * whole == carried {
        0
    } else {
        1
    };
    rounded(2 * whole + last, t)
}

/// A pattern from a magnitude and a sign.
fn with_sign(magnitude: u32, negative: bool) -> (r: Single)
    requires
        magnitude <= 0x7f80_0000,
    ensures
        r == Single::signed(magnitude as int, negative),
        r.magnitude() == magnitude,
        r.negative() == negative,
{
    if negative {
        Single { bits: magnitude + SIGN_BIT }
    } else {
        Single { bits: magnitude }
    }
}

impl Single {
    /// Adds two numbers.
    pub fn plus(&self, other: &Single) -> (r: Single)
        ensures
            r == self.sum(*other),
    {
        reveal(Single::sum);
        let a = self.magnitude_bits();
        let b = other.magnitude_bits();
        let negative_a = self.bits >= SIGN_BIT;
        let negative_b = other.bits >= SIGN_BIT;
        if a > INFINITE || b > INFINITE {
            return Single { bits: NOT_A_NUMBER };
        }
        if a == INFINITE {
            if b == INFINITE && negative_a != negative_b {
                return Single { bits: NOT_A_NUMBER };
            }
            return with_sign(INFINITE, negative_a);
        }
        if b == INFINITE {
            return with_sign(INFINITE, negative_b);
        }
        let (digits_a, scale_a) = parts(a);
        let (digits_b, scale_b) = parts(b);
        proof {
            self.lemma_weight_of_parts();
            other.lemma_weight_of_parts();
            assert((Single { bits: a }).significand() == self.significand());
            assert((Single { bits: b }).significand() == other.significand());
            assert((Single { bits: a }).scale() == self.scale());
            assert((Single { bits: b }).scale() == other.scale());
        }
        if scale_a >= scale_b {
            add_ordered(
                a,
                digits_a,
                scale_a,
                negative_a,
                digits_b,
                scale_b,
                negative_b,
                Ghost(self.scaled()),
                Ghost(other.scaled()),
            )
        } else {
            add_ordered(
                b,
                digits_b,
                scale_b,
                negative_b,
                digits_a,
                scale_a,
                negative_a,
                Ghost(other.scaled()),
                Ghost(self.scaled()),
            )
        }
    }

    /// Converts a whole number, rounding it where it has more than 24
    /// digits.
    pub fn from_count(count: u32) -> (r: Single)
        ensures
            r == Single::of_count(count),
    {
        proof {
            lemma_pow2_100();
        }
        with_sign(round_to_bits(count as u128, 149), false)
    }

    /// Converts a small whole number, exactly.
    pub fn from_unit(unit: i8) -> (r: Single)
        ensures
            r == Single::of_unit(unit),
    {
        proof {
            lemma_pow2_100();
        }
        if unit < 0 {
            let size: u128 = (-(unit as i32)) as u128;
            with_sign(round_to_bits(size, 149), true)
        } else {
            with_sign(round_to_bits(unit as u128, 149), false)
        }
    }

    /// The square root of `self`.
    pub fn sqrt(&self) -> (r: Single)
        ensures
            r == self.root(),
    {
        reveal(Single::root);
        let a = self.magnitude_bits();
        let negative = self.bits >= SIGN_BIT;
        if a > INFINITE || (negative && a != 0) {
            return Single { bits: NOT_A_NUMBER };
        }
        if a == 0 || a == INFINITE {
            return *self;
        }
        let (digits, scale) = parts(a);
        proof {
            assert((Single { bits: a }).significand() == self.significand());
            assert((Single { bits: a }).scale() == self.scale());
            lemma2_to64();
            lemma_pow2_adds(60, 4);
            lemma_pow2_100();
        }
        let radicand: u128 = if scale % 2 == 1 {
            digits as u128
        } else {
            2 * (digits as u128)
        };
        proof {
            lemma_mul_upper_bound(radicand as int, 0x1ff_fffe, pow2(60) as int, pow2(60) as int);
        }
        let carried: u128 = radicand * two_to(60);
        let whole = root_of(carried);
        let last: u128 = if whole * whole == carried {
            0
        } else {
            1
        };
        let magnitude = round_to_bits(2 * whole + last, (scale + 1) / 2 + 43);
        with_sign(magnitude, false)
    }

    /// Divides `self` by `other`.
    pub fn over(&self, other: &Single) -> (r: Single)
        ensures
            r == self.quotient(*other),
    {
        reveal(Single::quotient);
        let a = self.magnitude_bits();
        let b = other.magnitude_bits();
        if a > INFINITE || b > INFINITE {
            return Single { bits: NOT_A_NUMBER };
        }
        if (a == INFINITE && b == INFINITE) || (a == 0 && b == 0) {
            return Single { bits: NOT_A_NUMBER };
        }
        let negative = (self.bits >= SIGN_BIT) != (other.bits >= SIGN_BIT);
        if a == INFINITE || b == 0 {
            return with_sign(INFINITE, negative);
        }
        if a == 0 || b == INFINITE {
            return with_sign(0, negative);
        }
        let (digits_a, scale_a) = parts(a);
        let (digits_b, scale_b) = parts(b);
        proof {
            assert((Single { bits: a }).significand() == self.significand());
            assert((Single { bits: b }).significand() == other.significand());
            assert((Single { bits: a }).scale() == self.scale());
            assert((Single { bits: b }).scale() == other.scale());
            assert(digits_b > 0);
            lemma2_to64();
            lemma_pow2_adds(60, 4);
            lemma_mul_upper_bound(digits_a as int, 0xff_ffff, pow2(60) as int, pow2(60) as int);
            lemma_pow2_100();
        }
        let carried: u128 = (digits_a as u128) * two_to(60);
        let whole = carried / (digits_b as u128);
        let last: u128 = if carried % (digits_b as u128) == 0 {
            0
        } else {
            1
        };
        proof {
            lemma_div_nonincreasing(carried as int, digits_b as int);
        }
        let magnitude = round_to_bits(2 * whole + last, scale_a - scale_b + 149 - 61);
        with_sign(magnitude, negative)
    }

    /// Subtracts `other` from `self`.
    pub fn minus(&self, other: &Single) -> (r: Single)
        ensures
            r == self.difference(*other),
    {
        self.plus(&other.neg())
    }
}

/// The result of adding two finite numbers given by digits, scale and sign,
/// the first with the greater scale: what `sum` gives for numbers with the
/// values `high` and `low`.
pub open spec fn sum_of_values(high: int, low: int, both_negative: bool) -> Single {
    let exact = high + low;
    if exact == 0 {
        Single::signed(0, both_negative)
    } else if exact < 0 {
        Single::signed(rounded((-exact) as nat, 0), true)
    } else {
        Single::signed(rounded(exact as nat, 0), false)
    }
}

fn add_ordered(
    high_bits: u32,
    digits_high: u32,
    scale_high: i32,
    negative_high: bool,
    digits_low: u32,
    scale_low: i32,
    negative_low: bool,
    Ghost(high): Ghost<int>,
    Ghost(low): Ghost<int>,
) -> (r: Single)
    requires
        high_bits < 0x7f80_0000,
        digits_high == (Single { bits: high_bits }).significand(),
        scale_high == (Single { bits: high_bits }).scale(),
        digits_high < 0x100_0000,
        digits_low < 0x100_0000,
        0 <= scale_low <= scale_high <= 253,
        high == if negative_high {
            -(digits_high * pow2(scale_high as nat))
        } else {
            digits_high * pow2(scale_high as nat)
        },
        low == if negative_low {
            -(digits_low * pow2(scale_low as nat))
        } else {
            digits_low * pow2(scale_low as nat)
        },
    ensures
        r == sum_of_values(high, low, negative_high && negative_low),
{
    let gap = scale_high - scale_low;
    let ghost unit = pow2(scale_low as nat) as int;
    proof {
        lemma2_to64();
        lemma_pow2_pos(scale_low as nat);
        lemma_pow2_adds(gap as nat, scale_low as nat);
    }
    if gap > 60 {
        proof {
            let amount = (digits_low * unit) as nat;
            lemma_pow2_adds(24, scale_low as nat);
            lemma_mul_strict_inequality(digits_low as int, 0x100_0000, unit);
            if 24 + scale_low < scale_high - 2 {
                lemma_pow2_strictly_increases((24 + scale_low) as nat, (scale_high - 2) as nat);
            }
            assert(amount < pow2((scale_high - 2) as nat));
            lemma_rounded_nearby(
                digits_high as nat,
                scale_high as nat,
                amount,
                negative_high == negative_low,
            );
        }
        return with_sign(high_bits, negative_high);
    }
    let lift = two_to(gap as u32);
    proof {
        lemma_pow2_strictly_increases(gap as nat, 61);
        lemma_pow2_adds(61, 3);
        lemma_mul_upper_bound(digits_high as int, 0xff_ffff, lift as int, pow2(61) as int);
        lemma_pow2_100();
        lemma_mul_is_associative(digits_high as int, lift as int, unit);
    }
    let lifted: u128 = (digits_high as u128) * lift;
    assert(lifted * unit == digits_high * pow2(scale_high as nat));
    let (exact, negative): (u128, bool) = if negative_high == negative_low {
        (lifted + digits_low as u128, negative_high)
    } else if lifted >= digits_low as u128 {
        (lifted - digits_low as u128, negative_high)
    } else {
        (digits_low as u128 - lifted, negative_low)
    };
    proof {
        lemma_mul_is_distributive_add_other_way(unit, lifted as int, digits_low as int);
        lemma_mul_is_distributive_sub_other_way(unit, lifted as int, digits_low as int);
        lemma_mul_is_distributive_sub_other_way(unit, digits_low as int, lifted as int);
        if exact > 0 {
            lemma_mul_strict_inequality(0, exact as int, unit);
            lemma_rounded_scaled(exact as nat, scale_low as nat, 0);
        }
    }
    if exact == 0 {
        return with_sign(0, negative_high && negative_low);
    }
    let magnitude = round_to_bits(exact, scale_low);
    with_sign(magnitude, negative)
}

} // verus!
