use pathtracer::SCALE;
use pathtracer::fixed::fx_add;
use pathtracer::fixed::fx_clamp;
use pathtracer::fixed::fx_div;
use pathtracer::fixed::fx_min;
use pathtracer::fixed::fx_mul;
use pathtracer::fixed::fx_neg;
use pathtracer::fixed::fx_of;
use pathtracer::fixed::fx_of_u32;
use pathtracer::fixed::fx_sqrt;
use pathtracer::fixed::fx_sub;

#[test]
fn add_and_sub_are_exact_in_range() {
    assert_eq!(fx_add(SCALE, SCALE), 2 * SCALE);
    assert_eq!(fx_sub(3 * SCALE, SCALE), 2 * SCALE);
    assert_eq!(fx_add(-5, 5), 0);
}

#[test]
fn add_and_sub_saturate() {
    assert_eq!(fx_add(i64::MAX, 1), i64::MAX);
    assert_eq!(fx_sub(-i64::MAX, 1), -i64::MAX);
    assert_eq!(fx_add(i64::MAX, i64::MAX), i64::MAX);
}

#[test]
fn negation_is_exact_and_total() {
    assert_eq!(fx_neg(5 * SCALE), -5 * SCALE);
    assert_eq!(fx_neg(-5 * SCALE), 5 * SCALE);
    assert_eq!(fx_neg(i64::MIN), i64::MAX);
    assert_eq!(fx_neg(i64::MAX), -i64::MAX);
}

#[test]
fn multiplication_scales_and_truncates() {
    assert_eq!(fx_mul(3 * SCALE, 2 * SCALE), 6 * SCALE);
    assert_eq!(fx_mul(-3 * SCALE, 2 * SCALE), -6 * SCALE);
    assert_eq!(fx_mul(SCALE / 2, SCALE / 2), SCALE / 4);
    // 1/65536 * 1/65536 is far below one raw step and truncates to zero.
    assert_eq!(fx_mul(1, 1), 0);
    // truncation is toward zero on both sides
    assert_eq!(fx_mul(-1, 1), 0);
}

#[test]
fn multiplication_saturates() {
    assert_eq!(fx_mul(i64::MAX, i64::MAX), i64::MAX);
    assert_eq!(fx_mul(i64::MAX, -i64::MAX), -i64::MAX);
}

#[test]
fn division_truncates_toward_zero() {
    assert_eq!(fx_div(SCALE, 2 * SCALE), SCALE / 2);
    assert_eq!(fx_div(-SCALE, 2 * SCALE), -SCALE / 2);
    // 2/3 in raw units: 2 * 65536 / 3 = 43690.67 truncates to 43690,
    // and the negative quotient truncates toward zero, not downward.
    assert_eq!(fx_div(2, 3), 43690);
    assert_eq!(fx_div(-2, 3), -43690);
}

#[test]
fn division_by_zero_yields_zero() {
    assert_eq!(fx_div(12345, 0), 0);
    assert_eq!(fx_div(0, 0), 0);
}

#[test]
fn square_root_is_exact_on_squares() {
    assert_eq!(fx_sqrt(4 * SCALE), 2 * SCALE);
    assert_eq!(fx_sqrt(9 * SCALE), 3 * SCALE);
    assert_eq!(fx_sqrt(SCALE), SCALE);
    assert_eq!(fx_sqrt(0), 0);
}

#[test]
fn square_root_truncates_and_guards_negatives() {
    // sqrt(2) * 65536 = 92681.9
    assert_eq!(fx_sqrt(2 * SCALE), 92681);
    assert_eq!(fx_sqrt(-5), 0);
}

#[test]
fn clamp_and_min() {
    assert_eq!(fx_clamp(5, 0, 3), 3);
    assert_eq!(fx_clamp(-5, 0, 3), 0);
    assert_eq!(fx_clamp(2, 0, 3), 2);
    assert_eq!(fx_min(2, 3), 2);
    assert_eq!(fx_min(3, 2), 2);
}

#[test]
fn unit_conversions() {
    assert_eq!(fx_of(-1000), -1000 * SCALE);
    assert_eq!(fx_of(7), 7 * SCALE);
    assert_eq!(fx_of_u32(1200), 1200 * SCALE);
}
