//! Rounding to single precision.
//!
//! An exact result is given as a natural number `n` and a scale `t`, and
//! stands for `n * 2^t` in units of 2^-149, the smallest step of the format.
//! It is rounded to the nearest number that the format holds, a tie to the
//! one whose last digit is even, and to infinity beyond the largest.

use vstd::prelude::*;
use vstd::arithmetic::div_mod::{
    lemma_basic_div,
    lemma_div_decreases,
    lemma_div_multiples_vanish_quotient,
    lemma_div_nonincreasing,
    lemma_fundamental_div_mod_converse,
    lemma_small_mod,
    lemma_truncate_middle,
};
use vstd::arithmetic::mul::{
    lemma_mul_inequality,
    lemma_mul_is_associative,
    lemma_mul_left_inequality,
    lemma_mul_strict_inequality,
    lemma_mul_strict_upper_bound,
};
use vstd::arithmetic::power2::{
    lemma2_to64,
    lemma_pow2_adds,
    lemma_pow2_pos,
    lemma_pow2_strictly_increases,
    lemma_pow2_unfold,
    pow2,
};

verus! {

/// The number of binary digits of `n`: none for zero.
pub open spec fn digits(n: nat) -> nat
    decreases n,
{
    if n == 0 {
        0
    } else {
        1 + digits(n / 2)
    }
}

/// `n / 2^s` rounded to the nearest whole number, a tie to the even one.
pub open spec fn nearest_even(n: nat, s: nat) -> nat {
    if s == 0 {
        n
    } else {
        let q = n / pow2(s);
        let r = n % pow2(s);
        let half = pow2((s - 1) as nat);
        if r > half || (r == half && q % 2 == 1) {
            q + 1
        } else {
            q
        }
    }
}

/// The scale of the last digit that the format keeps of `n * 2^t`: what is
/// left of 24 digits, and never below the smallest step.
pub open spec fn kept_scale(n: nat, t: int) -> int {
    if digits(n) + t > 24 {
        digits(n) + t - 24
    } else {
        0
    }
}

/// The digits that the format keeps of `n * 2^t`, rounded.
pub open spec fn kept_digits(n: nat, t: int) -> nat {
    let g = kept_scale(n, t);
    if g <= t {
        n * pow2((t - g) as nat)
    } else {
        nearest_even(n, (g - t) as nat)
    }
}

/// The magnitude pattern of `n * 2^t` rounded to single precision.
///
/// The kept digits sit above the scale, 23 bits up. Where rounding carries
/// into a 25th digit the sum is the pattern of the next power of two, and
/// from the pattern of infinity on the result is infinity.
pub open spec fn rounded(n: nat, t: int) -> int {
    if n == 0 {
        0
    } else {
        let bits = kept_scale(n, t) * 0x80_0000 + kept_digits(n, t);
        if bits >= 0x7f80_0000 {
            0x7f80_0000
        } else {
            bits
        }
    }
}

/// Rounding at a scale moves a number by no more than half a step of that
/// scale, and by exactly half a step only onto an even number of steps.
pub proof fn lemma_nearest_even_is_nearest(n: nat, s: nat)
    requires
        s >= 1,
    ensures
        2 * (nearest_even(n, s) * pow2(s) - n) <= pow2(s),
        2 * (n - nearest_even(n, s) * pow2(s)) <= pow2(s),
        2 * (nearest_even(n, s) * pow2(s) - n) == pow2(s) || 2 * (n - nearest_even(n, s) * pow2(
            s,
        )) == pow2(s) ==> nearest_even(n, s) % 2 == 0,
{
    let p = pow2(s) as int;
    let half = pow2((s - 1) as nat) as int;
    let q = n as int / p;
    let r = n as int % p;
    lemma_pow2_pos(s);
    lemma_pow2_unfold(s);
    vstd::arithmetic::div_mod::lemma_fundamental_div_mod(n as int, p);
    assert(n == p * q + r);
    assert(0 <= r < p) by {
        vstd::arithmetic::div_mod::lemma_mod_bound(n as int, p);
    }
    assert(p * (q + 1) == p * q + p) by (nonlinear_arith);
    assert(q * p == p * q && (q + 1) * p == p * (q + 1)) by (nonlinear_arith);
}

/// A number of `digits(n)` digits lies from `2^(digits - 1)` up to `2^digits`.
pub proof fn lemma_digits_bounds(n: nat)
    requires
        n > 0,
    ensures
        digits(n) >= 1,
        pow2((digits(n) - 1) as nat) <= n < pow2(digits(n)),
    decreases n,
{
    lemma2_to64();
    if n == 1 {
        assert(digits(1) == 1 + digits(0));
    } else {
        lemma_digits_bounds(n / 2);
        lemma_pow2_unfold(digits(n));
        lemma_pow2_unfold((digits(n) - 1) as nat);
    }
}

/// A number from `2^(l - 1)` up to `2^l` has `l` digits.
pub proof fn lemma_digits_from_bounds(n: nat, l: nat)
    requires
        l >= 1,
        pow2((l - 1) as nat) <= n < pow2(l),
    ensures
        digits(n) == l,
{
    lemma_pow2_pos((l - 1) as nat);
    lemma_digits_bounds(n);
    let d = digits(n);
    if d < l {
        if d < l - 1 {
            lemma_pow2_strictly_increases(d, (l - 1) as nat);
        }
    } else if d > l {
        if d - 1 > l {
            lemma_pow2_strictly_increases(l, (d - 1) as nat);
        }
    }
}

/// Scaling by a power of two adds as many digits.
pub proof fn lemma_digits_scaled(n: nat, k: nat)
    requires
        n > 0,
    ensures
        digits(n * pow2(k)) == digits(n) + k,
{
    lemma_digits_bounds(n);
    let d = digits(n);
    lemma_pow2_pos(k);
    lemma_pow2_adds((d - 1) as nat, k);
    lemma_pow2_adds(d, k);
    lemma_mul_inequality(pow2((d - 1) as nat) as int, n as int, pow2(k) as int);
    lemma_mul_strict_inequality(n as int, pow2(d) as int, pow2(k) as int);
    lemma_digits_from_bounds(n * pow2(k), d + k);
}

/// Rounding at a scale sees the same in a number and in its multiple at the
/// scale raised as much.
pub proof fn lemma_nearest_even_scaled(n: nat, k: nat, s: nat)
    requires
        s >= 1,
    ensures
        nearest_even(n * pow2(k), s + k) == nearest_even(n, s),
{
    let p = pow2(s) as int;
    let f = pow2(k) as int;
    let half = pow2((s - 1) as nat) as int;
    lemma_pow2_pos(s);
    lemma_pow2_pos(k);
    lemma_pow2_pos((s - 1) as nat);
    lemma_pow2_adds(k, s);
    lemma_pow2_adds(k, (s - 1) as nat);
    assert(pow2(s + k) == f * p);
    assert(pow2((s + k - 1) as nat) == f * half);
    assert(n * pow2(k) == f * n) by (nonlinear_arith)
        requires
            f == pow2(k),
    ;
    lemma_div_multiples_vanish_quotient(f, n as int, p);
    lemma_truncate_middle(n as int, f, p);
    let r = n as int % p;
    assert((f * n) % (f * p) == f * r);
    assert((f * n) / (f * p) == n as int / p);
    lemma_mul_left_inequality(f, r, half);
    lemma_mul_left_inequality(f, half, r);
}

/// Rounding a multiple of the scale leaves it as it is.
pub proof fn lemma_nearest_even_exact(n: nat, k: nat, s: nat)
    requires
        1 <= s <= k,
    ensures
        nearest_even(n * pow2(k), s) == n * pow2((k - s) as nat),
{
    let p = pow2(s) as int;
    let rest = pow2((k - s) as nat) as int;
    lemma_pow2_pos(s);
    lemma_pow2_pos((s - 1) as nat);
    lemma_pow2_adds((k - s) as nat, s);
    assert(pow2(k) == rest * p);
    lemma_mul_is_associative(n as int, rest, p);
    assert(n * pow2(k) == (n * rest) * p + 0);
    lemma_fundamental_div_mod_converse((n * pow2(k)) as int, p, n * rest, 0);
}

/// Rounding sees the same in `n * 2^k` at scale `t` and in `n` at scale
/// `t + k`.
pub proof fn lemma_rounded_scaled(n: nat, k: nat, t: int)
    requires
        n > 0,
    ensures
        rounded(n * pow2(k), t) == rounded(n, t + k),
{
    let scaled = n * pow2(k);
    lemma_pow2_pos(k);
    lemma_mul_strict_inequality(0, n as int, pow2(k) as int);
    assert(scaled > 0);
    lemma_digits_scaled(n, k);
    let g = kept_scale(n, t + k);
    assert(kept_scale(scaled, t) == g);
    if g <= t {
        lemma_pow2_adds(k, (t - g) as nat);
        lemma_mul_is_associative(n as int, pow2(k) as int, pow2((t - g) as nat) as int);
    } else if g <= t + k {
        lemma_nearest_even_exact(n, k, (g - t) as nat);
    } else {
        lemma_nearest_even_scaled(n, k, (g - t - k) as nat);
    }
    assert(kept_digits(scaled, t) == kept_digits(n, t + k));
}

/// A number of 24 digits at scale `s` rounds to itself, and still does with
/// a little added or taken away: less than a quarter of its last digit.
pub proof fn lemma_rounded_nearby(d: nat, s: nat, w: nat, add: bool)
    requires
        0x80_0000 <= d < 0x100_0000,
        2 <= s <= 253,
        w < pow2((s - 2) as nat),
    ensures
        d * pow2(s) > w,
        rounded(
            if add {
                d * pow2(s) + w
            } else {
                (d * pow2(s) - w) as nat
            },
            0,
        ) == s * 0x80_0000 + d,
{
    lemma2_to64();
    let p = pow2(s) as int;
    let half = pow2((s - 1) as nat) as int;
    let quarter = pow2((s - 2) as nat) as int;
    lemma_pow2_pos((s - 2) as nat);
    lemma_pow2_unfold(s);
    lemma_pow2_unfold((s - 1) as nat);
    assert(p == 2 * half && half == 2 * quarter);
    lemma_pow2_adds(23, s);
    lemma_pow2_adds(24, s);
    lemma_pow2_adds(22, s);
    lemma_pow2_adds(24, (s - 1) as nat);
    let whole = d * p;
    lemma_mul_inequality(0x80_0000, d as int, p);
    lemma_mul_strict_inequality(d as int, 0x100_0000, p);
    assert(0x80_0000 * p <= whole < 0x100_0000 * p);
    assert(0x80_0000 * p >= p) by (nonlinear_arith)
        requires
            p > 0,
    ;
    if add {
        let n = (whole + w) as nat;
        assert((d + 1) * p == whole + p) by (nonlinear_arith)
            requires
                whole == d * p,
        ;
        lemma_mul_inequality((d + 1) as int, 0x100_0000, p);
        lemma_digits_from_bounds(n, 24 + s);
        lemma_fundamental_div_mod_converse(n as int, p, d as int, w as int);
    } else if w == 0 {
        lemma_digits_from_bounds(whole as nat, 24 + s);
        lemma_fundamental_div_mod_converse(whole, p, d as int, 0);
    } else if d > 0x80_0000 {
        let n = (whole - w) as nat;
        assert((d - 1) * p + (p - w) == whole - w) by (nonlinear_arith)
            requires
                whole == d * p,
        ;
        lemma_mul_inequality(0x80_0000, d - 1, p);
        lemma_digits_from_bounds(n, 24 + s);
        lemma_fundamental_div_mod_converse(n as int, p, d - 1, p - w);
    } else {
        let n = (whole - w) as nat;
        assert(whole == 0x100_0000 * half) by (nonlinear_arith)
            requires
                whole == d * p,
                d == 0x80_0000,
                p == 2 * half,
        ;
        assert(0xff_ffff * half + (half - w) == whole - w) by (nonlinear_arith)
            requires
                whole == 0x100_0000 * half,
        ;
        assert(pow2(22 + s) == 0x40_0000 * p);
        assert(0x40_0000 * p <= whole - w) by (nonlinear_arith)
            requires
                whole == 0x80_0000 * p,
                w < p,
                p > 0,
        ;
        lemma_digits_from_bounds(n, 23 + s);
        lemma_fundamental_div_mod_converse(n as int, half, 0xff_ffff, half - w);
        assert(kept_scale(n, 0) == s - 1);
        assert(nearest_even(n, (s - 1) as nat) == 0x100_0000);
    }
}

/// The value of 2^128, one beyond the widest machine word.
pub proof fn lemma_pow2_128()
    ensures
        pow2(128) == 0x1_0000_0000_0000_0000_0000_0000_0000_0000,
{
    lemma2_to64();
    lemma_pow2_adds(64, 64);
}

/// The value of 2^100, the bound on what is rounded.
pub proof fn lemma_pow2_100()
    ensures
        pow2(100) == 0x10_0000_0000_0000_0000_0000_0000,
{
    lemma2_to64();
    lemma_pow2_adds(32, 4);
    lemma_pow2_adds(64, 36);
}

/// The square of `r` does not exceed `n`, and the square of the next number
/// does.
pub open spec fn is_whole_root(n: nat, r: nat) -> bool {
    r * r <= n < (r + 1) * (r + 1)
}

/// The whole part of the square root of `n`.
pub open spec fn whole_root(n: nat) -> nat {
    choose|r: nat| is_whole_root(n, r)
}

/// Every number has a whole root.
pub proof fn lemma_whole_root_exists(n: nat)
    ensures
        is_whole_root(n, whole_root(n)),
    decreases n,
{
    if n == 0 {
        assert(0 * 0 <= 0 < (0 + 1) * (0 + 1)) by (nonlinear_arith);
        assert(is_whole_root(0, 0));
    } else {
        lemma_whole_root_exists((n - 1) as nat);
        let r = whole_root((n - 1) as nat);
        assert(r * r <= n - 1 < (r + 1) * (r + 1));
        if n < (r + 1) * (r + 1) {
            assert(is_whole_root(n, r));
        } else {
            assert((r + 1) * (r + 1) == n);
            assert((r + 1) * (r + 1) < (r + 2) * (r + 2)) by (nonlinear_arith)
                requires
                    r >= 0,
            ;
            assert(is_whole_root(n, (r + 1) as nat));
        }
    }
}

/// The whole part of a square root is the one number whose square does not
/// exceed `n` while the square of the next one does.
pub proof fn lemma_whole_root(n: nat, r: nat)
    requires
        is_whole_root(n, r),
    ensures
        whole_root(n) == r,
{
    let w = whole_root(n);
    lemma_whole_root_exists(n);
    if w < r {
        assert((w + 1) * (w + 1) <= r * r) by (nonlinear_arith)
            requires
                w + 1 <= r,
        ;
    } else if w > r {
        assert((r + 1) * (r + 1) <= w * w) by (nonlinear_arith)
            requires
                r + 1 <= w,
        ;
    }
}

/// Two to the power `k`.
pub(crate) fn two_to(k: u32) -> (r: u128)
    requires
        k <= 127,
    ensures
        r == pow2(k as nat),
        r >= 1,
{
    let mut r: u128 = 1;
    let mut i: u32 = 0;
    proof {
        lemma2_to64();
    }
    while i < k
        invariant
            i <= k <= 127,
            r == pow2(i as nat),
            r >= 1,
        decreases k - i,
    {
        proof {
            lemma_pow2_unfold((i + 1) as nat);
            lemma_pow2_strictly_increases((i + 1) as nat, 128);
            lemma_pow2_128();
        }
        r = r * 2;
        i += 1;
    }
    r
}

/// The number of binary digits of `n`.
pub(crate) fn count_digits(n: u128) -> (r: u32)
    ensures
        r == digits(n as nat),
        r <= 128,
{
    let mut rest: u128 = n;
    let mut count: u32 = 0;
    proof {
        lemma_pow2_128();
    }
    while rest > 0
        invariant
            count <= 128,
            digits(n as nat) == count + digits(rest as nat),
            rest > 0 ==> count < 128,
            rest < pow2((128 - count) as nat),
        decreases rest,
    {
        proof {
            lemma2_to64();
            lemma_pow2_unfold((128 - count) as nat);
        }
        rest = rest / 2;
        count += 1;
    }
    count
}

/// The whole part of the square root of a number below 2^86.
pub(crate) fn root_of(n: u128) -> (r: u128)
    requires
        n < 0x40_0000_0000_0000_0000_0000,
    ensures
        r == whole_root(n as nat),
        r * r <= n < (r + 1) * (r + 1),
        r < 0x800_0000_0000,
{
    let mut r: u128 = 0;
    let mut k: u32 = 43;
    proof {
        lemma2_to64();
        lemma_pow2_adds(32, 11);
        assert(pow2(43) == 0x800_0000_0000);
    }
    while k > 0
        invariant
            k <= 43,
            r * r <= n,
            n < (r + pow2(k as nat)) * (r + pow2(k as nat)),
            r + pow2(k as nat) <= 0x800_0000_0000,
        decreases k,
    {
        proof {
            lemma_pow2_unfold(k as nat);
        }
        k -= 1;
        let step = two_to(k);
        let next = r + step;
        assert(next * next <= 0x800_0000_0000 * 0x800_0000_0000) by (nonlinear_arith)
            requires
                0 <= next <= 0x800_0000_0000,
        ;
        if next * next <= n {
            r = next;
        }
    }
    proof {
        lemma2_to64();
        lemma_whole_root(n as nat, r as nat);
    }
    r
}

/// `n / 2^s` rounded to the nearest whole number, a tie to the even one,
/// for a number below 2^100.
fn round_shifted(n: u128, s: u32) -> (m: u128)
    requires
        n < pow2(100),
        s >= 1,
    ensures
        m == nearest_even(n as nat, s as nat),
        m <= n,
{
    if s > 120 {
        proof {
            lemma_pow2_pos(s as nat);
            lemma_pow2_pos((s - 1) as nat);
            lemma_pow2_strictly_increases(100, (s - 1) as nat);
            lemma_pow2_strictly_increases(100, s as nat);
            lemma_basic_div(n as int, pow2(s as nat) as int);
            lemma_small_mod(n as nat, pow2(s as nat));
        }
        0
    } else {
        let p = two_to(s);
        let half = two_to(s - 1);
        let q = n / p;
        let r = n % p;
        proof {
            lemma_pow2_unfold(s as nat);
            lemma_div_nonincreasing(n as int, p as int);
            if n > 0 {
                lemma_div_decreases(n as int, p as int);
            } else {
                lemma_basic_div(0, p as int);
                lemma_small_mod(0, p as nat);
            }
        }
        if r > half || (r == half && q % 2 == 1) {
            q + 1
        } else {
            q
        }
    }
}

/// The magnitude pattern of `n * 2^t` rounded to single precision.
pub(crate) fn round_to_bits(n: u128, t: i32) -> (r: u32)
    requires
        n < pow2(100),
        -400 <= t <= 400,
    ensures
        r == rounded(n as nat, t as int),
        r <= 0x7f80_0000,
{
    if n == 0 {
        return 0;
    }
    let l = count_digits(n) as i32;
    proof {
        lemma_digits_bounds(n as nat);
        if l > 100 {
            lemma_pow2_strictly_increases(100, (l - 1) as nat);
        }
        lemma_pow2_128();
        lemma2_to64();
    }
    let g: i32 = if l + t > 24 {
        l + t - 24
    } else {
        0
    };
    assert(g == kept_scale(n as nat, t as int));
    if g >= 255 {
        return 0x7f80_0000;
    }
    let m: u128 = if g <= t {
        let k = (t - g) as u32;
        let p = two_to(k);
        proof {
            lemma_pow2_strictly_increases(k as nat, 24);
            lemma_mul_strict_upper_bound(n as int, pow2(100) as int, p as int, pow2(24) as int);
            lemma_pow2_adds(100, 24);
            lemma_pow2_strictly_increases(124, 128);
        }
        n * p
    } else {
        round_shifted(n, (g - t) as u32)
    };
    assert(m == kept_digits(n as nat, t as int));
    proof {
        lemma_pow2_strictly_increases(100, 124);
        lemma_pow2_adds(124, 4);
        assert(m < pow2(124));
        assert(pow2(128) == pow2(124) * 16);
    }
    let bits: u128 = (g as u128) * 0x80_0000 + m;
    if bits >= 0x7f80_0000 {
        0x7f80_0000
    } else {
        bits as u32
    }
}

} // verus!
