use raytracer::fx::{isqrt_u128, Fx, MAX_RAW, SCALE};

fn fx(units: i64) -> Fx {
    Fx::from_int(units)
}

#[test]
fn fixed_point_add_sub_mul_div_exact() {
    assert_eq!(fx(3).add(fx(4)), fx(7));
    assert_eq!(fx(3).sub(fx(4)), fx(-1));
    assert_eq!(fx(3).mul(fx(4)), fx(12));
    assert_eq!(fx(12).div(fx(4)), fx(3));
    // A half times a half is a quarter.
    let half = Fx { raw: SCALE / 2 };
    assert_eq!(half.mul(half).raw, SCALE / 4);
}

#[test]
fn fixed_point_truncates_toward_zero() {
    // -7 / 2 = -3.5 truncates to -3.5 in fixed point exactly, but
    // -1 / 3 leaves a remainder that is dropped toward zero.
    let third = fx(-1).div(fx(3));
    assert_eq!(third.raw, -(SCALE / 3));
}

#[test]
fn fixed_point_saturates() {
    let big = Fx { raw: MAX_RAW };
    assert_eq!(big.add(big).raw, MAX_RAW);
    assert_eq!(big.neg().sub(big).raw, -MAX_RAW);
    assert_eq!(big.mul(big).raw, MAX_RAW);
    // Division by zero saturates in the direction of the dividend.
    assert_eq!(fx(5).div(fx(0)).raw, MAX_RAW);
    assert_eq!(fx(-5).div(fx(0)).raw, -MAX_RAW);
    assert_eq!(fx(0).div(fx(0)).raw, 0);
}

#[test]
fn integer_square_roots() {
    assert_eq!(isqrt_u128(0), 0);
    assert_eq!(isqrt_u128(1), 1);
    assert_eq!(isqrt_u128(3), 1);
    assert_eq!(isqrt_u128(4), 2);
    assert_eq!(isqrt_u128(152399025), 12345);
    assert_eq!(isqrt_u128(152399026), 12345);
    assert_eq!(isqrt_u128(u64::MAX as u128), 0xFFFF_FFFF);
}

#[test]
fn fixed_point_sqrt_exact_squares() {
    assert_eq!(fx(4).sqrt(), fx(2));
    assert_eq!(fx(9).sqrt(), fx(3));
    assert_eq!(fx(0).sqrt(), fx(0));
    assert_eq!(fx(-4).sqrt(), fx(0));
    // sqrt(2) in fixed point: floor(65536 * sqrt(2)) = 92681.
    assert_eq!(fx(2).sqrt().raw, 92681);
}

#[test]
fn fixed_point_clamp01() {
    assert_eq!(fx(2).clamp01(), fx(1));
    assert_eq!(fx(-2).clamp01(), fx(0));
    let half = Fx { raw: SCALE / 2 };
    assert_eq!(half.clamp01(), half);
}
