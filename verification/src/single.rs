//! Single-precision numbers by their bit patterns.
//!
//! The device computes in the binary32 format of IEEE 754, and the host has
//! to get the same numbers. A number is held here by its 32-bit pattern, and
//! what a pattern stands for is stated exactly, as a whole multiple of
//! 2^-149, the smallest step of the format. This module tells which of two
//! numbers is the smaller, which sign a number has, and turns signs. Sums,
//! products, quotients and roots are in `arithmetic`.

use vstd::prelude::*;
use vstd::arithmetic::mul::{lemma_mul_inequality, lemma_mul_strict_inequality};
use vstd::arithmetic::power2::{lemma_pow2_pos, lemma_pow2_strictly_increases, lemma_pow2_unfold, pow2};

verus! {

/// The bit that holds the sign.
pub const SIGN_BIT: u32 = 0x8000_0000;

/// The pattern of positive infinity. A greater magnitude is no number.
pub const INFINITE: u32 = 0x7f80_0000;

/// A single-precision number, by its bit pattern.
#[derive(Clone, Copy, Debug, PartialEq, Eq, Structural)]
pub struct Single {
    pub bits: u32,
}

/// The sign of a number. Zero has the sign of its sign bit; `Undefined` is
/// the sign of what is not a number.
#[derive(Clone, Copy, Debug, PartialEq, Eq, Structural)]
pub enum Sign {
    Negative,
    Positive,
    Undefined,
}

impl Single {
    /// The pattern without its sign bit.
    pub open spec fn magnitude(self) -> int {
        self.bits as int % 0x8000_0000
    }

    /// The sign bit is set.
    pub open spec fn negative(self) -> bool {
        self.bits >= 0x8000_0000
    }

    /// The pattern stands for no number.
    pub open spec fn undefined(self) -> bool {
        self.magnitude() > 0x7f80_0000
    }

    /// The biased exponent, from 0 to 255.
    pub open spec fn exponent(self) -> int {
        self.magnitude() / 0x80_0000
    }

    /// The 23 bits behind the leading digit.
    pub open spec fn fraction(self) -> int {
        self.magnitude() % 0x80_0000
    }

    /// The absolute value in units of 2^-149. For the pattern of infinity
    /// this is 2^277, beyond every finite number.
    pub open spec fn weight(self) -> int {
        if self.exponent() == 0 {
            self.fraction()
        } else {
            (0x80_0000 + self.fraction()) * pow2((self.exponent() - 1) as nat)
        }
    }

    /// The number in units of 2^-149. Both zeros give 0.
    pub open spec fn scaled(self) -> int {
        if self.negative() {
            -self.weight()
        } else {
            self.weight()
        }
    }

    /// Both are numbers and `self` is the smaller.
    pub open spec fn less(self, other: Single) -> bool {
        !self.undefined() && !other.undefined() && self.scaled() < other.scaled()
    }

    /// The pattern with its sign bit flipped.
    pub open spec fn negated(self) -> Single {
        Single {
            bits: if self.bits >= 0x8000_0000 {
                (self.bits - 0x8000_0000) as u32
            } else {
                (self.bits + 0x8000_0000) as u32
            },
        }
    }

    /// The pattern with its sign bit cleared.
    pub open spec fn absolute(self) -> Single {
        Single { bits: self.magnitude() as u32 }
    }

    /// The sign as a comparison of signs sees it.
    pub open spec fn sign_of(self) -> Sign {
        if self.undefined() {
            Sign::Undefined
        } else if self.negative() {
            Sign::Negative
        } else {
            Sign::Positive
        }
    }

    /// A greater magnitude stands for a greater absolute value.
    pub proof fn lemma_weight_increases(self, other: Single)
        requires
            self.magnitude() < other.magnitude(),
        ensures
            0 <= self.weight() < other.weight(),
    {
        let ea = self.exponent();
        let eb = other.exponent();
        let fa = self.fraction();
        let fb = other.fraction();
        assert(ea < eb || (ea == eb && fa < fb));
        if ea > 0 {
            lemma_pow2_pos((ea - 1) as nat);
            lemma_mul_inequality(0, 0x80_0000 + fa, pow2((ea - 1) as nat) as int);
        }
        if ea == eb {
            if ea > 0 {
                lemma_mul_strict_inequality(
                    0x80_0000 + fa,
                    0x80_0000 + fb,
                    pow2((ea - 1) as nat) as int,
                );
            }
        } else {
            let high = pow2((eb - 1) as nat) as int;
            lemma_pow2_pos((eb - 1) as nat);
            lemma_mul_inequality(0x80_0000, 0x80_0000 + fb, high);
            assert(0x80_0000 * high <= other.weight());
            if ea == 0 {
                lemma_mul_inequality(1, high, 0x80_0000);
                assert(0x80_0000 <= 0x80_0000 * high) by (nonlinear_arith)
                    requires
                        high >= 1,
                ;
            } else {
                let low = pow2((ea - 1) as nat) as int;
                lemma_mul_strict_inequality(0x80_0000 + fa, 0x100_0000, low);
                lemma_pow2_unfold(ea as nat);
                assert(pow2(ea as nat) == 2 * low);
                if ea < eb - 1 {
                    lemma_pow2_strictly_increases(ea as nat, (eb - 1) as nat);
                }
                assert(2 * low <= high);
                assert(0x100_0000 * low <= 0x80_0000 * high) by (nonlinear_arith)
                    requires
                        2 * low <= high,
                ;
            }
        }
    }

    /// Only the zeros have no weight.
    pub proof fn lemma_weight_of_zero(self)
        ensures
            0 <= self.weight(),
            self.weight() == 0 <==> self.magnitude() == 0,
    {
        if self.exponent() > 0 {
            let p = pow2((self.exponent() - 1) as nat) as int;
            lemma_pow2_pos((self.exponent() - 1) as nat);
            lemma_mul_strict_inequality(0, 0x80_0000 + self.fraction(), p);
        }
    }

    /// The magnitudes of numbers are ordered as their absolute values are.
    pub proof fn lemma_order_of_weights(self, other: Single)
        ensures
            self.magnitude() < other.magnitude() <==> self.weight() < other.weight(),
            self.magnitude() == other.magnitude() ==> self.weight() == other.weight(),
    {
        if self.magnitude() < other.magnitude() {
            self.lemma_weight_increases(other);
        } else if other.magnitude() < self.magnitude() {
            other.lemma_weight_increases(self);
        }
    }

    /// The pattern without its sign bit, as a machine word.
    pub(crate) fn magnitude_bits(&self) -> (r: u32)
        ensures
            r == self.magnitude(),
            r < 0x8000_0000,
    {
        let bits = self.bits;
        let r = bits & 0x7fff_ffff;
        assert(r == bits % 0x8000_0000 && r < 0x8000_0000) by (bit_vector)
            requires
                r == bits & 0x7fff_ffff,
        ;
        r
    }

    /// Whether the pattern stands for no number.
    pub fn is_nan(&self) -> (r: bool)
        ensures
            r == self.undefined(),
    {
        self.magnitude_bits() > INFINITE
    }

    /// The absolute value: the same pattern with the sign bit cleared.
    pub fn abs(&self) -> (r: Single)
        ensures
            r == self.absolute(),
            r.bits == self.magnitude(),
            !r.negative(),
            r.weight() == self.weight(),
            r.undefined() == self.undefined(),
            !self.undefined() ==> r.scaled() == self.weight(),
    {
        Single { bits: self.magnitude_bits() }
    }

    /// The number with its sign turned: the same pattern with the sign bit
    /// flipped. The result stands for the negated number, exactly.
    pub fn neg(&self) -> (r: Single)
        ensures
            r == self.negated(),
            r.magnitude() == self.magnitude(),
            r.negative() != self.negative(),
            r.weight() == self.weight(),
            r.undefined() == self.undefined(),
            r.scaled() == -self.scaled(),
    {
        let bits = self.bits;
        let flipped = bits ^ SIGN_BIT;
        assert(flipped % 0x8000_0000 == bits % 0x8000_0000 && (flipped >= 0x8000_0000) != (bits
            >= 0x8000_0000) && flipped == (if bits >= 0x8000_0000 {
            (bits - 0x8000_0000) as u32
        } else {
            (bits + 0x8000_0000) as u32
        })) by (bit_vector)
            requires
                flipped == bits ^ 0x8000_0000,
        ;
        Single { bits: flipped }
    }

    /// The sign of the number: that of its sign bit, for zero too, and
    /// `Undefined` for what is no number.
    pub fn signum(&self) -> (r: Sign)
        ensures
            r == self.sign_of(),
    {
        if self.is_nan() {
            Sign::Undefined
        } else if self.bits >= SIGN_BIT {
            Sign::Negative
        } else {
            Sign::Positive
        }
    }

    /// Whether `self` is smaller than `other`. Nothing is smaller or greater
    /// than what is no number, and the two zeros are equal.
    pub fn lt(&self, other: &Single) -> (r: bool)
        ensures
            r == self.less(*other),
    {
        let a = self.magnitude_bits();
        let b = other.magnitude_bits();
        proof {
            self.lemma_order_of_weights(*other);
            other.lemma_order_of_weights(*self);
            self.lemma_weight_of_zero();
            other.lemma_weight_of_zero();
        }
        if a > INFINITE || b > INFINITE {
            false
        } else if self.bits >= SIGN_BIT {
            if other.bits >= SIGN_BIT {
                b < a
            } else {
                a != 0 || b != 0
            }
        } else {
            if other.bits >= SIGN_BIT {
                false
            } else {
                a < b
            }
        }
    }

    /// Whether `self` is greater than `other`.
    pub fn gt(&self, other: &Single) -> (r: bool)
        ensures
            r == other.less(*self),
    {
        other.lt(self)
    }
}

} // verus!
