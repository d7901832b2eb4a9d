// Exactness and saturation of the fixed-point scalar arithmetic.

use raytracer::fixed::{Fx, SAT_MAX, SAT_MIN, SCALE};

#[test]
fn scale_is_one() {
    assert_eq!(SCALE, 65536);
    assert_eq!(Fx::one().bits, SCALE);
    assert_eq!(Fx::zero().bits, 0);
}

#[test]
fn from_int_and_ratio_are_floored() {
    assert_eq!(Fx::from_int(3).bits, 3 * 65536);
    assert_eq!(Fx::from_int(-2).bits, -2 * 65536);
    // 7/10 is not on the grid: it floors to 45875/65536.
    assert_eq!(Fx::from_ratio(7, 10).bits, 45875);
    assert_eq!(Fx::from_ratio(1, 2).bits, 32768);
    assert_eq!(Fx::from_ratio(-201, 2).bits, -6586368);
    assert_eq!(Fx::from_ratio(1, 1000).bits, 65);
}

#[test]
fn add_sub_neg_are_exact() {
    let a = Fx::from_int(5);
    let b = Fx::from_ratio(1, 2);
    assert_eq!(a.add(b).bits, 5 * 65536 + 32768);
    assert_eq!(a.sub(b).bits, 5 * 65536 - 32768);
    assert_eq!(b.neg().bits, -32768);
    assert_eq!(a.abs().bits, a.bits);
    assert_eq!(a.neg().abs().bits, a.bits);
}

#[test]
fn mul_floors_toward_negative_infinity() {
    // Exact products stay exact.
    let half = Fx::from_ratio(1, 2);
    assert_eq!(half.mul(half).bits, 16384);
    assert_eq!(Fx::from_int(3).mul(Fx::from_int(4)).bits, 12 * 65536);
    // 0.7 * 0.7 floors: 45875^2 / 65536 = 32112.46... -> 32112.
    let c = Fx::from_ratio(7, 10);
    assert_eq!(c.mul(c).bits, (45875i64 * 45875) / 65536);
    // Negative products floor downward, not toward zero.
    let tiny = Fx::from_bits(1);
    assert_eq!(tiny.neg().mul(tiny).bits, -1);
}

#[test]
fn div_floors() {
    assert_eq!(Fx::from_int(1).div(Fx::from_int(3)).bits, 21845);
    assert_eq!(Fx::from_int(-1).div(Fx::from_int(3)).bits, -21846);
    assert_eq!(Fx::from_int(6).div(Fx::from_int(2)).bits, 3 * 65536);
}

#[test]
fn sqrt_is_exact_on_perfect_squares() {
    assert_eq!(Fx::from_int(4).sqrt().bits, 2 * 65536);
    assert_eq!(Fx::from_int(25).sqrt().bits, 5 * 65536);
    assert_eq!(Fx::one().sqrt().bits, 65536);
    assert_eq!(Fx::from_ratio(1, 4).sqrt().bits, 32768);
    // Negative inputs map to zero.
    assert_eq!(Fx::from_int(-9).sqrt().bits, 0);
    // 2 floors to the grid point below sqrt(2).
    let r = Fx::from_int(2).sqrt().bits;
    assert!(r * r <= 2 * 65536 * 65536 && (r + 1) * (r + 1) > 2 * 65536 * 65536);
}

#[test]
fn arithmetic_saturates_instead_of_wrapping() {
    let big = Fx::from_bits(SAT_MAX);
    assert_eq!(big.add(Fx::one()).bits, SAT_MAX);
    assert_eq!(big.neg().bits, SAT_MIN);
    assert_eq!(big.mul(big).bits, SAT_MAX);
    assert_eq!(big.neg().sub(Fx::one()).bits, SAT_MIN);
}

#[test]
fn clamp01_clamps() {
    assert_eq!(Fx::from_int(2).clamp01().bits, 65536);
    assert_eq!(Fx::from_int(-2).clamp01().bits, 0);
    assert_eq!(Fx::from_ratio(1, 2).clamp01().bits, 32768);
}

#[test]
fn comparisons_follow_bits() {
    assert!(Fx::zero().lt(Fx::one()));
    assert!(Fx::one().gt(Fx::zero()));
    assert!(Fx::one().le(Fx::one()));
    assert!(Fx::zero().is_zero());
    assert!(!Fx::one().is_zero());
}
