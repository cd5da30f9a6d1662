use portals::arithmetic::NOT_A_NUMBER;
use portals::single::Single;

fn single(number: f32) -> Single {
    Single { bits: number.to_bits() }
}

fn number(single: Single) -> f32 {
    f32::from_bits(single.bits)
}

/// The same number: the same pattern, or both no number.
fn same(ours: Single, theirs: f32) -> bool {
    if theirs.is_nan() {
        ours.bits == NOT_A_NUMBER
    } else {
        ours.bits == theirs.to_bits()
    }
}

fn special() -> Vec<f32> {
    vec![
        0.0,
        -0.0,
        1.0,
        -1.0,
        2.0,
        0.5,
        1.5,
        3.0,
        0.1,
        0.2,
        0.3,
        1.0e-3,
        1.0e-20,
        1.0e-38,
        1.0e-39,
        1.0e-44,
        1.0e-45,
        1.0e20,
        1.0e38,
        3.0e38,
        16_777_216.0,
        16_777_215.0,
        8_388_608.0,
        8_388_607.5,
        0.999_999_94,
        1.000_000_1,
        f32::MIN_POSITIVE,
        f32::from_bits(1),
        f32::from_bits(2),
        f32::from_bits(3),
        f32::from_bits(0x007f_ffff),
        f32::from_bits(0x0080_0001),
        f32::from_bits(0x00ff_ffff),
        f32::MAX,
        f32::MIN,
        f32::EPSILON,
        f32::INFINITY,
        f32::NEG_INFINITY,
        f32::NAN,
        std::f32::consts::PI,
        std::f32::consts::SQRT_2,
        -std::f32::consts::E,
    ]
}

struct Walk(u64);

impl Walk {
    fn next(&mut self) -> u32 {
        self.0 = self.0.wrapping_mul(6_364_136_223_846_793_005).wrapping_add(1_442_695_040_888_963_407);
        (self.0 >> 32) as u32
    }

    /// Any pattern.
    fn any(&mut self) -> f32 {
        f32::from_bits(self.next())
    }

    /// A pattern with an exponent near that of one, where sums and products
    /// round without leaving the range.
    fn near_one(&mut self) -> f32 {
        let bits = self.next();
        let exponent = 127 - 12 + (self.next() % 25);
        f32::from_bits((bits & 0x807f_ffff) | (exponent << 23))
    }

    /// A pattern near the smallest numbers.
    fn tiny(&mut self) -> f32 {
        let bits = self.next();
        let exponent = self.next() % 30;
        f32::from_bits((bits & 0x807f_ffff) | (exponent << 23))
    }

    /// A pattern near the largest numbers.
    fn huge(&mut self) -> f32 {
        let bits = self.next();
        let exponent = 225 + (self.next() % 30);
        f32::from_bits((bits & 0x807f_ffff) | (exponent << 23))
    }
}

#[test]
fn no_number_has_one_pattern() {
    assert_eq!(NOT_A_NUMBER, 0x7fc0_0000);
    assert!(f32::from_bits(NOT_A_NUMBER).is_nan());
}

#[test]
fn products_of_small_whole_numbers_are_exact() {
    assert_eq!(number(single(2.0).times(&single(3.0))), 6.0);
    assert_eq!(number(single(-2.0).times(&single(3.0))), -6.0);
    assert_eq!(number(single(-0.5).times(&single(-0.5))), 0.25);
    assert_eq!(number(single(1.5).times(&single(1.5))), 2.25);
    assert_eq!(single(1.0).times(&single(7.25)), single(7.25));
}

#[test]
fn products_round_to_the_nearest() {
    assert_eq!(single(0.1).times(&single(0.1)), single(0.1 * 0.1));
    assert_eq!(single(0.1).times(&single(0.1)).bits, 0x3c23_d70b);
    assert_eq!(single(3.0).times(&single(0.333_333_34)).bits, 1.0f32.to_bits());
}

#[test]
fn products_of_zero_keep_the_sign_rule() {
    assert_eq!(single(0.0).times(&single(5.0)), single(0.0));
    assert_eq!(single(-0.0).times(&single(5.0)), single(-0.0));
    assert_eq!(single(0.0).times(&single(-5.0)), single(-0.0));
    assert_eq!(single(-0.0).times(&single(-0.0)), single(0.0));
}

#[test]
fn products_beyond_the_range_are_infinite() {
    assert_eq!(single(f32::MAX).times(&single(2.0)), single(f32::INFINITY));
    assert_eq!(single(f32::MAX).times(&single(-2.0)), single(f32::NEG_INFINITY));
    assert_eq!(single(1.0e30).times(&single(1.0e30)), single(f32::INFINITY));
    assert_eq!(single(f32::INFINITY).times(&single(-1.0)), single(f32::NEG_INFINITY));
}

#[test]
fn products_below_the_range_fade_to_zero() {
    assert_eq!(single(1.0e-30).times(&single(1.0e-30)), single(0.0));
    assert_eq!(single(1.0e-30).times(&single(-1.0e-30)), single(-0.0));
    assert_eq!(single(f32::from_bits(1)).times(&single(0.5)), single(0.0));
    assert_eq!(single(f32::from_bits(3)).times(&single(0.5)), single(f32::from_bits(2)));
    assert_eq!(single(f32::MIN_POSITIVE).times(&single(0.5)).bits, 0x0040_0000);
}

#[test]
fn products_that_are_no_number() {
    assert_eq!(single(f32::INFINITY).times(&single(0.0)).bits, NOT_A_NUMBER);
    assert_eq!(single(-0.0).times(&single(f32::NEG_INFINITY)).bits, NOT_A_NUMBER);
    assert_eq!(single(f32::NAN).times(&single(1.0)).bits, NOT_A_NUMBER);
    assert_eq!(single(1.0).times(&single(f32::NAN)).bits, NOT_A_NUMBER);
}

#[test]
fn products_agree_with_the_machine_on_special_numbers() {
    let all = special();
    for a in &all {
        for b in &all {
            assert!(same(single(*a).times(&single(*b)), a * b), "{a:?} * {b:?}");
        }
    }
}

#[test]
fn products_agree_with_the_machine_on_many_numbers() {
    let mut walk = Walk(1);
    for _ in 0..100_000 {
        let (a, b) = (walk.any(), walk.any());
        assert!(same(single(a).times(&single(b)), a * b), "{a:?} * {b:?}");
        let (a, b) = (walk.near_one(), walk.near_one());
        assert!(same(single(a).times(&single(b)), a * b), "{a:?} * {b:?}");
        let (a, b) = (walk.tiny(), walk.near_one());
        assert!(same(single(a).times(&single(b)), a * b), "{a:?} * {b:?}");
        let (a, b) = (walk.huge(), walk.near_one());
        assert!(same(single(a).times(&single(b)), a * b), "{a:?} * {b:?}");
        let (a, b) = (walk.huge(), walk.tiny());
        assert!(same(single(a).times(&single(b)), a * b), "{a:?} * {b:?}");
    }
}

#[test]
fn sums_of_small_whole_numbers_are_exact() {
    assert_eq!(number(single(2.0).plus(&single(3.0))), 5.0);
    assert_eq!(number(single(2.0).plus(&single(-3.0))), -1.0);
    assert_eq!(number(single(0.5).plus(&single(0.25))), 0.75);
    assert_eq!(number(single(5.0).minus(&single(3.0))), 2.0);
    assert_eq!(number(single(3.0).minus(&single(5.0))), -2.0);
    assert_eq!(number(single(-1.5).minus(&single(-1.5))), 0.0);
}

#[test]
fn sums_round_to_the_nearest() {
    assert_eq!(single(0.1).plus(&single(0.2)), single(0.1 + 0.2));
    assert_eq!(single(0.1).plus(&single(0.2)).bits, 0x3e99_999a);
    assert_eq!(single(16_777_216.0).plus(&single(1.0)), single(16_777_216.0));
    assert_eq!(single(16_777_216.0).plus(&single(3.0)), single(16_777_220.0));
    assert_eq!(single(1.0).plus(&single(f32::EPSILON * 0.5)), single(1.0));
    assert_eq!(single(1.0).minus(&single(f32::EPSILON * 0.25)), single(1.0));
    assert_eq!(single(1.0).minus(&single(f32::EPSILON * 0.5)), single(1.0 - f32::EPSILON * 0.5));
}

#[test]
fn sums_of_zero_keep_the_sign_rule() {
    assert_eq!(single(0.0).plus(&single(0.0)), single(0.0));
    assert_eq!(single(-0.0).plus(&single(-0.0)), single(-0.0));
    assert_eq!(single(0.0).plus(&single(-0.0)), single(0.0));
    assert_eq!(single(-0.0).plus(&single(0.0)), single(0.0));
    assert_eq!(single(1.0).plus(&single(-1.0)), single(0.0));
    assert_eq!(single(-1.0).plus(&single(1.0)), single(0.0));
    assert_eq!(single(-0.0).minus(&single(0.0)), single(-0.0));
    assert_eq!(single(0.0).minus(&single(0.0)), single(0.0));
    assert_eq!(single(7.5).plus(&single(-0.0)), single(7.5));
}

#[test]
fn sums_beyond_the_range_are_infinite() {
    assert_eq!(single(f32::MAX).plus(&single(f32::MAX)), single(f32::INFINITY));
    assert_eq!(single(f32::MIN).plus(&single(f32::MIN)), single(f32::NEG_INFINITY));
    assert_eq!(single(f32::MAX).plus(&single(1.0)), single(f32::MAX));
    assert_eq!(single(f32::INFINITY).plus(&single(-1.0e30)), single(f32::INFINITY));
    assert_eq!(single(1.0).minus(&single(f32::INFINITY)), single(f32::NEG_INFINITY));
}

#[test]
fn sums_that_are_no_number() {
    assert_eq!(single(f32::INFINITY).plus(&single(f32::NEG_INFINITY)).bits, NOT_A_NUMBER);
    assert_eq!(single(f32::INFINITY).minus(&single(f32::INFINITY)).bits, NOT_A_NUMBER);
    assert_eq!(single(f32::NAN).plus(&single(1.0)).bits, NOT_A_NUMBER);
    assert_eq!(single(1.0).minus(&single(f32::NAN)).bits, NOT_A_NUMBER);
}

#[test]
fn sums_of_the_smallest_numbers_are_exact() {
    let step = f32::from_bits(1);
    assert_eq!(single(step).plus(&single(step)), single(f32::from_bits(2)));
    assert_eq!(single(f32::from_bits(0x007f_ffff)).plus(&single(step)).bits, 0x0080_0000);
    assert_eq!(single(f32::MIN_POSITIVE).minus(&single(step)).bits, 0x007f_ffff);
}

#[test]
fn sums_agree_with_the_machine_on_special_numbers() {
    let all = special();
    for a in &all {
        for b in &all {
            assert!(same(single(*a).plus(&single(*b)), a + b), "{a:?} + {b:?}");
            assert!(same(single(*a).minus(&single(*b)), a - b), "{a:?} - {b:?}");
        }
    }
}

#[test]
fn sums_agree_with_the_machine_on_many_numbers() {
    let mut walk = Walk(2);
    for _ in 0..100_000 {
        let (a, b) = (walk.any(), walk.any());
        assert!(same(single(a).plus(&single(b)), a + b), "{a:?} + {b:?}");
        let (a, b) = (walk.near_one(), walk.near_one());
        assert!(same(single(a).plus(&single(b)), a + b), "{a:?} + {b:?}");
        assert!(same(single(a).minus(&single(b)), a - b), "{a:?} - {b:?}");
        let (a, b) = (walk.tiny(), walk.tiny());
        assert!(same(single(a).plus(&single(b)), a + b), "{a:?} + {b:?}");
        let (a, b) = (walk.huge(), walk.huge());
        assert!(same(single(a).plus(&single(b)), a + b), "{a:?} + {b:?}");
        let (a, b) = (walk.tiny(), walk.near_one());
        assert!(same(single(a).minus(&single(b)), a - b), "{a:?} - {b:?}");
    }
}

#[test]
fn sums_of_neighbours_agree_with_the_machine() {
    // Numbers whose exponents differ by little, where digits cancel or carry.
    let mut walk = Walk(3);
    for _ in 0..100_000 {
        let a = walk.near_one();
        let shift = walk.next() % 30;
        let b = f32::from_bits((walk.next() & 0x807f_ffff) | (a.to_bits() & 0x7f80_0000))
            * f32::from_bits((127 - shift) << 23);
        assert!(same(single(a).plus(&single(b)), a + b), "{a:?} + {b:?}");
        assert!(same(single(a).minus(&single(b)), a - b), "{a:?} - {b:?}");
    }
}

#[test]
fn quotients_of_small_whole_numbers_are_exact() {
    assert_eq!(number(single(6.0).over(&single(3.0))), 2.0);
    assert_eq!(number(single(-6.0).over(&single(4.0))), -1.5);
    assert_eq!(number(single(1.0).over(&single(-8.0))), -0.125);
    assert_eq!(single(7.25).over(&single(1.0)), single(7.25));
}

#[test]
fn quotients_round_to_the_nearest() {
    assert_eq!(single(1.0).over(&single(3.0)), single(1.0 / 3.0));
    assert_eq!(single(1.0).over(&single(3.0)).bits, 0x3eaa_aaab);
    assert_eq!(single(2.0).over(&single(3.0)).bits, 0x3f2a_aaab);
    assert_eq!(single(1.0).over(&single(10.0)).bits, 0x3dcc_cccd);
}

#[test]
fn quotients_by_zero_and_infinity() {
    assert_eq!(single(1.0).over(&single(0.0)), single(f32::INFINITY));
    assert_eq!(single(-1.0).over(&single(0.0)), single(f32::NEG_INFINITY));
    assert_eq!(single(1.0).over(&single(-0.0)), single(f32::NEG_INFINITY));
    assert_eq!(single(1.0).over(&single(f32::INFINITY)), single(0.0));
    assert_eq!(single(-1.0).over(&single(f32::INFINITY)), single(-0.0));
    assert_eq!(single(0.0).over(&single(-5.0)), single(-0.0));
    assert_eq!(single(f32::INFINITY).over(&single(-5.0)), single(f32::NEG_INFINITY));
}

#[test]
fn quotients_that_are_no_number() {
    assert_eq!(single(0.0).over(&single(0.0)).bits, NOT_A_NUMBER);
    assert_eq!(single(f32::INFINITY).over(&single(f32::NEG_INFINITY)).bits, NOT_A_NUMBER);
    assert_eq!(single(f32::NAN).over(&single(1.0)).bits, NOT_A_NUMBER);
    assert_eq!(single(1.0).over(&single(f32::NAN)).bits, NOT_A_NUMBER);
}

#[test]
fn quotients_leave_the_range_on_both_sides() {
    assert_eq!(single(f32::MAX).over(&single(0.5)), single(f32::INFINITY));
    assert_eq!(single(1.0e-30).over(&single(1.0e30)), single(0.0));
    assert_eq!(single(f32::from_bits(1)).over(&single(2.0)), single(0.0));
    assert_eq!(single(f32::from_bits(3)).over(&single(2.0)), single(f32::from_bits(2)));
    assert_eq!(single(f32::MIN_POSITIVE).over(&single(2.0)).bits, 0x0040_0000);
}

#[test]
fn quotients_agree_with_the_machine_on_special_numbers() {
    let all = special();
    for a in &all {
        for b in &all {
            assert!(same(single(*a).over(&single(*b)), a / b), "{a:?} / {b:?}");
        }
    }
}

#[test]
fn quotients_agree_with_the_machine_on_many_numbers() {
    let mut walk = Walk(4);
    for _ in 0..100_000 {
        let (a, b) = (walk.any(), walk.any());
        assert!(same(single(a).over(&single(b)), a / b), "{a:?} / {b:?}");
        let (a, b) = (walk.near_one(), walk.near_one());
        assert!(same(single(a).over(&single(b)), a / b), "{a:?} / {b:?}");
        let (a, b) = (walk.tiny(), walk.near_one());
        assert!(same(single(a).over(&single(b)), a / b), "{a:?} / {b:?}");
        let (a, b) = (walk.near_one(), walk.huge());
        assert!(same(single(a).over(&single(b)), a / b), "{a:?} / {b:?}");
        let (a, b) = (walk.tiny(), walk.tiny());
        assert!(same(single(a).over(&single(b)), a / b), "{a:?} / {b:?}");
        let (a, b) = (walk.near_one(), walk.tiny());
        assert!(same(single(a).over(&single(b)), a / b), "{a:?} / {b:?}");
    }
}

#[test]
fn roots_of_squares_are_exact() {
    assert_eq!(number(single(4.0).sqrt()), 2.0);
    assert_eq!(number(single(2.25).sqrt()), 1.5);
    assert_eq!(number(single(1.0).sqrt()), 1.0);
    assert_eq!(number(single(0.25).sqrt()), 0.5);
    assert_eq!(number(single(1.0e10).sqrt()), 1.0e5);
}

#[test]
fn roots_round_to_the_nearest() {
    assert_eq!(single(2.0).sqrt(), single(std::f32::consts::SQRT_2));
    assert_eq!(single(2.0).sqrt().bits, 0x3fb5_04f3);
    assert_eq!(single(3.0).sqrt().bits, 0x3fdd_b3d7);
    assert_eq!(single(0.5).sqrt().bits, 0x3f35_04f3);
}

#[test]
fn roots_of_zero_infinity_and_less_than_zero() {
    assert_eq!(single(0.0).sqrt(), single(0.0));
    assert_eq!(single(-0.0).sqrt(), single(-0.0));
    assert_eq!(single(f32::INFINITY).sqrt(), single(f32::INFINITY));
    assert_eq!(single(-1.0).sqrt().bits, NOT_A_NUMBER);
    assert_eq!(single(f32::NEG_INFINITY).sqrt().bits, NOT_A_NUMBER);
    assert_eq!(single(-f32::from_bits(1)).sqrt().bits, NOT_A_NUMBER);
    assert_eq!(single(f32::NAN).sqrt().bits, NOT_A_NUMBER);
}

#[test]
fn roots_of_the_smallest_and_largest_numbers() {
    assert_eq!(single(f32::from_bits(1)).sqrt(), single(f32::from_bits(1).sqrt()));
    assert_eq!(single(f32::MIN_POSITIVE).sqrt(), single(f32::MIN_POSITIVE.sqrt()));
    assert_eq!(single(f32::MAX).sqrt(), single(f32::MAX.sqrt()));
}

#[test]
fn roots_agree_with_the_machine_on_special_numbers() {
    for a in special() {
        assert!(same(single(a).sqrt(), a.sqrt()), "sqrt {a:?}");
    }
}

#[test]
fn roots_agree_with_the_machine_on_many_numbers() {
    let mut walk = Walk(5);
    for _ in 0..100_000 {
        let a = walk.any();
        assert!(same(single(a).sqrt(), a.sqrt()), "sqrt {a:?}");
        let a = walk.near_one().abs();
        assert!(same(single(a).sqrt(), a.sqrt()), "sqrt {a:?}");
        let a = walk.tiny().abs();
        assert!(same(single(a).sqrt(), a.sqrt()), "sqrt {a:?}");
        let a = walk.huge().abs();
        assert!(same(single(a).sqrt(), a.sqrt()), "sqrt {a:?}");
        let a = walk.near_one();
        let square = a * a;
        assert!(same(single(square).sqrt(), square.sqrt()), "sqrt {square:?}");
    }
}

#[test]
fn whole_numbers_convert_as_the_machine_converts() {
    for count in [0u32, 1, 2, 3, 10, 255, 16_777_215, 16_777_216, 16_777_217, 16_777_219, 0x7fff_ffff, 0xffff_ff7f, 0xffff_ff80, u32::MAX] {
        assert_eq!(Single::from_count(count), single(count as f32), "{count}");
    }
    let mut walk = Walk(6);
    for _ in 0..100_000 {
        let count = walk.next() >> (walk.next() % 32);
        assert_eq!(Single::from_count(count), single(count as f32), "{count}");
    }
}

#[test]
fn small_whole_numbers_convert_exactly() {
    for unit in i8::MIN..=i8::MAX {
        assert_eq!(Single::from_unit(unit), single(f32::from(unit)), "{unit}");
    }
    assert_eq!(Single::from_unit(0), single(0.0));
    assert_eq!(Single::from_unit(-1), single(-1.0));
}

#[test]
fn sums_and_products_do_not_depend_on_the_order() {
    let mut walk = Walk(7);
    for _ in 0..10_000 {
        let (a, b) = (single(walk.any()), single(walk.any()));
        assert_eq!(a.plus(&b), b.plus(&a));
        assert_eq!(a.times(&b), b.times(&a));
    }
}
