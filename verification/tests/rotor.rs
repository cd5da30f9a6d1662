use portals::arithmetic::NOT_A_NUMBER;
use portals::rotor::{Rotor, HALF, TWO};
use portals::single::Single;
use portals::vector3::Vector3;

fn single(number: f32) -> Single {
    Single { bits: number.to_bits() }
}

fn rotor(c: [f32; 4]) -> Rotor {
    Rotor { s: single(c[0]), e12: single(c[1]), e13: single(c[2]), e23: single(c[3]) }
}

fn vector(c: [f32; 3]) -> Vector3 {
    Vector3 { x: single(c[0]), y: single(c[1]), z: single(c[2]) }
}

fn coefficients(r: Rotor) -> [f32; 4] {
    [
        f32::from_bits(r.s.bits),
        f32::from_bits(r.e12.bits),
        f32::from_bits(r.e13.bits),
        f32::from_bits(r.e23.bits),
    ]
}

fn numbers(v: Vector3) -> [f32; 3] {
    [f32::from_bits(v.x.bits), f32::from_bits(v.y.bits), f32::from_bits(v.z.bits)]
}

fn same(ours: Single, theirs: f32) -> bool {
    if theirs.is_nan() {
        ours.bits == NOT_A_NUMBER
    } else {
        ours.bits == theirs.to_bits()
    }
}

fn close(a: [f32; 3], b: [f32; 3]) -> bool {
    a.iter().zip(b.iter()).all(|(p, q)| (p - q).abs() < 1.0e-5)
}

/// The product of rotors as the machine forms it.
fn after(first: [f32; 4], second: [f32; 4]) -> [f32; 4] {
    let [a1, b1, c1, d1] = first;
    let [a2, b2, c2, d2] = second;
    [
        a1 * a2 - b1 * b2 - c1 * c2 - d1 * d2,
        a1 * b2 + a2 * b1 + c2 * d1 - c1 * d2,
        a1 * c2 + a2 * c1 + b1 * d2 - b2 * d1,
        a1 * d2 + a2 * d1 + b2 * c1 - b1 * c2,
    ]
}

/// A point turned by a rotor as the machine forms it.
fn rotate(r: [f32; 4], p: [f32; 3]) -> [f32; 3] {
    let [a, b, c, d] = r;
    let [x, y, z] = p;
    let e012 = c * c * z + d * d * z
        - 2.0 * a * c * x
        - 2.0 * a * d * y
        - 2.0 * b * d * x
        - a * a * z
        - b * b * z
        + 2.0 * b * c * y;
    let e013 = a * a * y + c * c * y
        - 2.0 * a * d * z
        - 2.0 * b * c * z
        - 2.0 * c * d * x
        - b * b * y
        - d * d * y
        + 2.0 * a * b * x;
    let e023 = b * b * x + c * c * x - 2.0 * b * d * z - a * a * x - d * d * x
        + 2.0 * a * b * y
        + 2.0 * a * c * z
        + 2.0 * c * d * y;
    [-e023, e013, -e012]
}

fn half_turn(angle: f32) -> (Single, Single) {
    let (sine, cosine) = f32::from_bits(Rotor::half(single(angle)).bits).sin_cos();
    (single(sine), single(cosine))
}

struct Walk(u64);

impl Walk {
    fn next(&mut self) -> u32 {
        self.0 = self.0.wrapping_mul(6_364_136_223_846_793_005).wrapping_add(1_442_695_040_888_963_407);
        (self.0 >> 32) as u32
    }

    fn number(&mut self) -> f32 {
        let bits = self.next();
        let exponent = 127 - 6 + (self.next() % 9);
        f32::from_bits((bits & 0x807f_ffff) | (exponent << 23))
    }
}

#[test]
fn two_and_one_half_are_their_patterns() {
    assert_eq!(TWO, 2.0f32.to_bits());
    assert_eq!(HALF, 0.5f32.to_bits());
}

#[test]
fn half_of_an_angle() {
    assert_eq!(Rotor::half(single(3.0)), single(1.5));
    assert_eq!(Rotor::half(single(-0.25)), single(-0.125));
}

#[test]
fn rotations_hold_the_half_angle_in_their_plane() {
    let (s, c) = (single(0.6), single(0.8));
    assert_eq!(coefficients(Rotor::rotation_xy(s, c)), [0.8, 0.6, 0.0, 0.0]);
    assert_eq!(coefficients(Rotor::rotation_xz(s, c)), [0.8, 0.0, 0.6, 0.0]);
    assert_eq!(coefficients(Rotor::rotation_yz(s, c)), [0.8, 0.0, 0.0, 0.6]);
}

#[test]
fn products_follow_the_table() {
    let r = rotor([1.0, 2.0, 3.0, 4.0]);
    let q = rotor([5.0, 6.0, 7.0, 8.0]);
    assert_eq!(coefficients(r.after(&q)), [-60.0, 20.0, 14.0, 32.0]);
    assert_eq!(coefficients(q.then(&r)), [-60.0, 20.0, 14.0, 32.0]);
    assert_eq!(coefficients(r.then(&q)), [-60.0, 12.0, 30.0, 24.0]);
}

#[test]
fn the_identity_rotor_changes_nothing() {
    let r = rotor([0.5, -0.5, 0.5, 0.5]);
    assert_eq!(coefficients(r.then(&Rotor::identity())), [0.5, -0.5, 0.5, 0.5]);
    assert_eq!(coefficients(Rotor::identity().then(&r)), [0.5, -0.5, 0.5, 0.5]);
    assert_eq!(numbers(Rotor::identity().rotate(&vector([1.0, 2.0, 3.0]))), [1.0, 2.0, 3.0]);
}

#[test]
fn half_turns_about_the_axes() {
    let p = vector([1.0, 2.0, 3.0]);
    assert_eq!(numbers(rotor([0.0, 1.0, 0.0, 0.0]).rotate(&p)), [-1.0, -2.0, 3.0]);
    assert_eq!(numbers(rotor([0.0, 0.0, 1.0, 0.0]).rotate(&p)), [-1.0, 2.0, -3.0]);
    assert_eq!(numbers(rotor([0.0, 0.0, 0.0, 1.0]).rotate(&p)), [1.0, -2.0, -3.0]);
}

#[test]
fn a_quarter_turn_in_the_xy_plane() {
    let (s, c) = half_turn(std::f32::consts::FRAC_PI_2);
    let r = Rotor::rotation_xy(s, c);
    let turned = numbers(r.rotate(&vector([1.0, 0.0, 0.0])));
    assert!(close(turned, [0.0, 1.0, 0.0]) || close(turned, [0.0, -1.0, 0.0]));
    let back = numbers(r.rotate(&vector(turned)));
    assert!(close(back, [-1.0, 0.0, 0.0]));
    assert!(close(numbers(r.rotate(&vector([0.0, 0.0, 1.0]))), [0.0, 0.0, 1.0]));
}

#[test]
fn a_turn_and_its_opposite_cancel() {
    let (s, c) = half_turn(0.7);
    let (t, d) = half_turn(-0.7);
    let product = coefficients(Rotor::rotation_xy(s, c).then(&Rotor::rotation_xy(t, d)));
    assert!((product[0] - 1.0).abs() < 1.0e-6);
    assert!(product[1].abs() < 1.0e-6);
    assert_eq!(product[2], 0.0);
    assert_eq!(product[3], 0.0);
}

#[test]
fn a_unit_rotor_keeps_lengths() {
    let (s, c) = half_turn(1.1);
    let (t, d) = half_turn(-2.3);
    let r = Rotor::rotation_xy(s, c).then(&Rotor::rotation_yz(t, d));
    let p = vector([0.3, -1.2, 2.5]);
    let before = f32::from_bits(p.magnitude().bits);
    let after = f32::from_bits(r.rotate(&p).magnitude().bits);
    assert!((before - after).abs() < 1.0e-5);
}

#[test]
fn length_and_unit_rotor() {
    assert_eq!(rotor([1.0, 2.0, 2.0, 4.0]).magnitude(), single(5.0));
    assert_eq!(coefficients(rotor([0.0, 0.0, 2.0, 0.0]).normalised()), [0.0, 0.0, 1.0, 0.0]);
    assert_eq!(coefficients(rotor([0.0, 0.0, 0.0, 0.0]).normalised()), [1.0, 0.0, 0.0, 0.0]);
    assert_eq!(coefficients(rotor([f32::NAN, 0.0, 0.0, 0.0]).normalised()), [1.0, 0.0, 0.0, 0.0]);
}

#[test]
fn rotors_agree_with_the_machine() {
    let mut walk = Walk(21);
    for _ in 0..20_000 {
        let r = [walk.number(), walk.number(), walk.number(), walk.number()];
        let q = [walk.number(), walk.number(), walk.number(), walk.number()];
        let p = [walk.number(), walk.number(), walk.number()];
        let product = rotor(r).after(&rotor(q));
        let expected = after(r, q);
        assert!(same(product.s, expected[0]));
        assert!(same(product.e12, expected[1]));
        assert!(same(product.e13, expected[2]));
        assert!(same(product.e23, expected[3]));
        assert_eq!(rotor(r).then(&rotor(q)), rotor(q).after(&rotor(r)));
        let turned = rotor(r).rotate(&vector(p));
        let expected = rotate(r, p);
        assert!(same(turned.x, expected[0]));
        assert!(same(turned.y, expected[1]));
        assert!(same(turned.z, expected[2]));
        let length = (r[0] * r[0] + r[1] * r[1] + r[2] * r[2] + r[3] * r[3]).sqrt();
        assert!(same(rotor(r).magnitude(), length));
        let scale = length.recip();
        let unit = rotor(r).normalised();
        assert!(same(unit.s, r[0] * scale) && same(unit.e23, r[3] * scale));
    }
}

#[test]
fn a_turn_and_its_opposite_may_miss_the_identity_by_a_last_digit() {
    let (s, c) = half_turn(-4.610_756);
    let (t, d) = half_turn(4.610_756);
    let product = Rotor::rotation_xy(s, c).then(&Rotor::rotation_xy(t, d));
    assert_ne!(product.s, single(1.0));
    assert!((f32::from_bits(product.s.bits) - 1.0).abs() < 1.0e-6);
}

#[test]
fn a_unit_rotor_may_change_a_length_by_a_last_digit() {
    let (s, c) = half_turn(-4.610_756);
    let r = Rotor::rotation_xy(s, c);
    let p = vector([1.0, 2.0, 3.0]);
    let before = f32::from_bits(p.magnitude().bits);
    let after = f32::from_bits(r.rotate(&p).magnitude().bits);
    assert_ne!(before, after);
    assert!((before - after).abs() < 1.0e-6);
}
