use evosim::fixed::{clamp, fx_mul, isqrt, sat_add, sin_fx, cos_fx, wrap, FP_ONE, HALF_PI_FX, PI_FX, TAU_FX};

#[test]
fn sat_add_plain_and_saturating() {
    assert_eq!(sat_add(2, 3), 5);
    assert_eq!(sat_add(-2, -3), -5);
    assert_eq!(sat_add(i64::MAX, 1), i64::MAX);
    assert_eq!(sat_add(i64::MIN, -1), i64::MIN);
    assert_eq!(sat_add(i64::MAX, i64::MIN), -1);
}

#[test]
fn fx_mul_scales_by_one_million() {
    assert_eq!(fx_mul(500_000, 800_000), 400_000);
    assert_eq!(fx_mul(-500_000, 800_000), -400_000);
    assert_eq!(fx_mul(-500_000, -800_000), 400_000);
    assert_eq!(fx_mul(FP_ONE, FP_ONE), FP_ONE);
    assert_eq!(fx_mul(0, i64::MAX), 0);
    assert_eq!(fx_mul(3, 3), 0);
    assert_eq!(fx_mul(i64::MAX, FP_ONE), i64::MAX);
    assert_eq!(fx_mul(i64::MAX, 2 * FP_ONE), i64::MAX);
    assert_eq!(fx_mul(i64::MIN, 2 * FP_ONE), i64::MIN);
}

#[test]
fn wrap_is_modulo() {
    assert_eq!(wrap(1_004_998, FP_ONE), 4_998);
    assert_eq!(wrap(-5, FP_ONE), 999_995);
    assert_eq!(wrap(123, FP_ONE), 123);
    assert_eq!(wrap(999_999, FP_ONE), 999_999);
    assert_eq!(wrap(1_000_000, FP_ONE), 0);
}

#[test]
fn isqrt_rounds_down() {
    assert_eq!(isqrt(0), 0);
    assert_eq!(isqrt(1), 1);
    assert_eq!(isqrt(8), 2);
    assert_eq!(isqrt(9), 3);
    assert_eq!(isqrt(10_000_000_000), 100_000);
    assert_eq!(isqrt(u64::MAX), 4_294_967_295);
}

#[test]
fn clamp_bounds() {
    assert_eq!(clamp(5, 0, 10), 5);
    assert_eq!(clamp(-5, 0, 10), 0);
    assert_eq!(clamp(15, 0, 10), 10);
}

#[test]
fn sine_landmarks() {
    assert_eq!(sin_fx(0), 0);
    assert_eq!(sin_fx(PI_FX), 0);
    assert_eq!(sin_fx(HALF_PI_FX), 999_999);
    assert_eq!(sin_fx(PI_FX + HALF_PI_FX), -999_999);
    assert_eq!(cos_fx(0), 999_999);
    assert_eq!(cos_fx(HALF_PI_FX), 1);
    assert!(TAU_FX == 2 * PI_FX);
}
