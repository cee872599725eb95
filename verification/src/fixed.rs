//! Saturating signed fixed-point arithmetic.
//!
//! A raw `i64` value `v` stands for the real number `v / SCALE`. The
//! representable range is kept symmetric (`-i64::MAX ..= i64::MAX`) so that
//! negation is always exact; every operation saturates at the range ends.
//! Multiplication and division round toward zero.

use vstd::prelude::*;
use vstd::arithmetic::div_mod::lemma_div_of0;
use vstd::arithmetic::div_mod::lemma_div_pos_is_pos;
use vstd::arithmetic::div_mod::lemma_div_is_ordered;
use vstd::arithmetic::div_mod::lemma_div_by_multiple;
use vstd::arithmetic::mul::lemma_mul_inequality;
use vstd::arithmetic::mul::lemma_mul_nonnegative;

verus! {

/// Number of raw steps per unit: a raw value `v` stands for `v / SCALE`.
pub const SCALE: i64 = 65536;

/// Largest representable raw value.
pub const FX_MAX: i64 = i64::MAX;

/// Smallest representable raw value: the range is symmetric around zero.
pub const FX_MIN: i64 = -i64::MAX;

/// Clamp a mathematical integer into the representable raw range.
pub open spec fn sat(v: int) -> int {
    if v > FX_MAX as int {
        FX_MAX as int
    } else if v < FX_MIN as int {
        FX_MIN as int
    } else {
        v
    }
}

/// Absolute value.
pub open spec fn absi(v: int) -> int {
    if v < 0 {
        -v
    } else {
        v
    }
}

/// Division rounding toward zero, the rounding the executable
/// magnitude-based routines perform. Meaningful only for `b != 0`.
pub open spec fn tdiv(a: int, b: int) -> int {
    if (a < 0) != (b < 0) {
        -(absi(a) / absi(b))
    } else {
        absi(a) / absi(b)
    }
}

/// Saturating addition of raw values.
pub open spec fn fx_add_s(a: int, b: int) -> int {
    sat(a + b)
}

/// Saturating subtraction of raw values.
pub open spec fn fx_sub_s(a: int, b: int) -> int {
    sat(a - b)
}

/// Saturating negation of a raw value.
pub open spec fn fx_neg_s(a: int) -> int {
    sat(-a)
}

/// Fixed-point product: the wide product scaled back down, rounded toward
/// zero, then saturated.
pub open spec fn fx_mul_s(a: int, b: int) -> int {
    sat(tdiv(a * b, SCALE as int))
}

/// Fixed-point quotient, rounded toward zero and saturated. Division by
/// zero yields zero, the guarded value the renderer relies on.
pub open spec fn fx_div_s(a: int, b: int) -> int {
    if b == 0 {
        0
    } else {
        sat(tdiv(a * (SCALE as int), b))
    }
}

/// `r` is the integer square root of `x`.
pub open spec fn is_isqrt(x: int, r: int) -> bool {
    0 <= r && r * r <= x && x < (r + 1) * (r + 1)
}

/// The integer square root of a non-negative `x`.
pub open spec fn isqrt_s(x: int) -> int {
    choose|r: int| is_isqrt(x, r)
}

/// Fixed-point square root: non-positive inputs yield zero.
pub open spec fn fx_sqrt_s(a: int) -> int {
    if a <= 0 {
        0
    } else {
        isqrt_s(a * (SCALE as int))
    }
}

/// Clamp a raw value into `[lo, hi]`.
pub open spec fn fx_clamp_s(v: int, lo: int, hi: int) -> int {
    if v < lo {
        lo
    } else if v > hi {
        hi
    } else {
        v
    }
}

/// The smaller of two raw values.
pub open spec fn fx_min_s(a: int, b: int) -> int {
    if a < b {
        a
    } else {
        b
    }
}

/// Every non-negative integer has an integer square root.
pub proof fn lemma_isqrt_exists(x: int)
    requires
        x >= 0,
    ensures
        is_isqrt(x, isqrt_s(x)),
    decreases x,
{
    if x == 0 {
        assert(is_isqrt(0, 0)) by (nonlinear_arith);
    } else {
        lemma_isqrt_exists(x - 1);
        let r = isqrt_s(x - 1);
        if (r + 1) * (r + 1) <= x {
            assert(x == (r + 1) * (r + 1));
            assert(is_isqrt(x, r + 1)) by (nonlinear_arith)
                requires
                    x == (r + 1) * (r + 1),
                    r >= 0,
            ;
        } else {
            assert(is_isqrt(x, r));
        }
    }
    assert(exists|r: int| is_isqrt(x, r));
}

/// The integer square root is unique.
pub proof fn lemma_isqrt_unique(x: int, a: int, b: int)
    requires
        is_isqrt(x, a),
        is_isqrt(x, b),
    ensures
        a == b,
{
    if a < b {
        assert((a + 1) * (a + 1) <= b * b) by (nonlinear_arith)
            requires
                0 <= a,
                a < b,
        ;
        assert(b * b <= x);
    }
    if b < a {
        assert((b + 1) * (b + 1) <= a * a) by (nonlinear_arith)
            requires
                0 <= b,
                b < a,
        ;
        assert(a * a <= x);
    }
}

/// Negating one factor negates a truncating quotient with positive divisor.
pub proof fn lemma_tdiv_neg(a: int, b: int)
    requires
        b > 0,
    ensures
        tdiv(-a, b) == -tdiv(a, b),
{
}

/// Saturation commutes with negation because the range is symmetric.
pub proof fn lemma_sat_neg(v: int)
    ensures
        sat(-v) == -sat(v),
{
}

/// A signed product equals its magnitude product with the expected sign.
pub proof fn lemma_mul_sign_abs(a: int, b: int, ma: int, mb: int) by (nonlinear_arith)
    requires
        ma == if a < 0 { -a } else { a },
        mb == if b < 0 { -b } else { b },
    ensures
        a * b == if (a < 0) != (b < 0) { -(ma * mb) } else { ma * mb },
{
}

/// A fixed-point square is non-negative.
pub proof fn lemma_fx_square_nonneg(a: int)
    ensures
        0 <= fx_mul_s(a, a),
        fx_mul_s(a, a) <= FX_MAX as int,
{
    lemma_mul_nonnegative(absi(a), absi(a));
    lemma_mul_sign_abs(a, a, absi(a), absi(a));
    lemma_div_pos_is_pos(a * a, SCALE as int);
}

/// Scaling a non-negative value by a factor in `[0, 1]` shrinks it.
pub proof fn lemma_fx_mul_unit_le(a: int, p: int)
    requires
        0 <= a <= FX_MAX as int,
        0 <= p <= SCALE as int,
    ensures
        0 <= fx_mul_s(a, p) <= a,
{
    lemma_mul_nonnegative(a, p);
    lemma_div_pos_is_pos(a * p, SCALE as int);
    lemma_mul_inequality(p, SCALE as int, a);
    assert(a * p == p * a && a * (SCALE as int) == (SCALE as int) * a) by (nonlinear_arith);
    lemma_div_is_ordered(a * p, a * (SCALE as int), SCALE as int);
    lemma_div_by_multiple(a, SCALE as int);
}

/// Narrow a wide intermediate sum into the raw range.
pub fn sat_i128(s: i128) -> (r: i64)
    ensures
        r as int == sat(s as int),
{
    if s > FX_MAX as i128 {
        FX_MAX
    } else if s < FX_MIN as i128 {
        FX_MIN
    } else {
        s as i64
    }
}

/// Truncating division of an exact multiple of the scale recovers the
/// multiplier: no rounding happens.
pub proof fn lemma_tdiv_exact(k: int)
    ensures
        tdiv(k * (SCALE as int), SCALE as int) == k,
{
    if k >= 0 {
        lemma_div_by_multiple(k, SCALE as int);
    } else {
        lemma_div_by_multiple(-k, SCALE as int);
        assert((-k) * (SCALE as int) == -(k * (SCALE as int)));
    }
}

/// A product of whole numbers of units is exact whenever it fits.
pub proof fn lemma_fx_mul_units(x: int, y: int)
    requires
        absi(x * y) * (SCALE as int) <= FX_MAX as int,
    ensures
        fx_mul_s(x * (SCALE as int), y * (SCALE as int)) == x * y * (SCALE as int),
{
    let sc = SCALE as int;
    assert((x * sc) * (y * sc) == (x * y * sc) * sc) by (nonlinear_arith);
    lemma_tdiv_exact(x * y * sc);
    assert(absi(x * y * sc) == absi(x * y) * sc);
}

/// Zero times anything is zero in fixed point.
pub proof fn lemma_fx_mul_zero(a: int)
    ensures
        fx_mul_s(0, a) == 0,
        fx_mul_s(a, 0) == 0,
{
    assert(0 * a == 0) by (nonlinear_arith);
    assert(a * 0 == 0) by (nonlinear_arith);
}

/// Zero divided by anything nonzero is zero in fixed point.
pub proof fn lemma_fx_div_zero_num(b: int)
    requires
        b != 0,
    ensures
        fx_div_s(0, b) == 0,
{
    lemma_div_of0(absi(b));
}

/// A quotient whose numerator magnitude is at most the (positive)
/// denominator lies within one unit either way.
pub proof fn lemma_fx_div_unit(a: int, b: int)
    requires
        0 < b,
        absi(a) <= b,
    ensures
        -(SCALE as int) <= fx_div_s(a, b) <= SCALE as int,
{
    let m = absi(a) * (SCALE as int);
    assert(absi(a * (SCALE as int)) == m);
    lemma_div_pos_is_pos(m, b);
    lemma_mul_inequality(absi(a), b, SCALE as int);
    assert(b * (SCALE as int) == (SCALE as int) * b) by (nonlinear_arith);
    lemma_div_is_ordered(m, (SCALE as int) * b, b);
    lemma_div_by_multiple(SCALE as int, b);
}

/// The square of a value of magnitude at most one is in `[0, 1]`.
pub proof fn lemma_fx_square_le_one(a: int)
    requires
        -(SCALE as int) <= a <= SCALE as int,
    ensures
        0 <= fx_mul_s(a, a) <= SCALE as int,
{
    lemma_fx_square_nonneg(a);
    lemma_mul_sign_abs(a, a, absi(a), absi(a));
    lemma_mul_inequality(absi(a), SCALE as int, absi(a));
    lemma_mul_inequality(absi(a), SCALE as int, SCALE as int);
    assert((SCALE as int) * absi(a) == absi(a) * (SCALE as int)) by (nonlinear_arith);
    assert((SCALE as int) * (SCALE as int) == 65536 * (SCALE as int));
    lemma_div_is_ordered(a * a, 65536 * (SCALE as int), SCALE as int);
    lemma_div_by_multiple(65536, SCALE as int);
}

/// Saturating addition of two raw values.
pub fn fx_add(a: i64, b: i64) -> (r: i64)
    ensures
        r as int == fx_add_s(a as int, b as int),
{
    let s: i128 = a as i128 + b as i128;
    sat_i128(s)
}

/// Saturating subtraction of two raw values.
pub fn fx_sub(a: i64, b: i64) -> (r: i64)
    ensures
        r as int == fx_sub_s(a as int, b as int),
{
    let s: i128 = a as i128 - b as i128;
    if s > FX_MAX as i128 {
        FX_MAX
    } else if s < FX_MIN as i128 {
        FX_MIN
    } else {
        s as i64
    }
}

/// Saturating negation of a raw value.
pub fn fx_neg(a: i64) -> (r: i64)
    ensures
        r as int == fx_neg_s(a as int),
{
    if a == i64::MIN {
        FX_MAX
    } else {
        -a
    }
}

/// Fixed-point multiplication, rounded toward zero and saturated.
pub fn fx_mul(a: i64, b: i64) -> (r: i64)
    ensures
        r as int == fx_mul_s(a as int, b as int),
{
    let neg: bool = (a < 0) != (b < 0);
    let ma: u128 = if a < 0 {
        (-(a as i128)) as u128
    } else {
        a as u128
    };
    let mb: u128 = if b < 0 {
        (-(b as i128)) as u128
    } else {
        b as u128
    };
    proof {
        assert(ma * mb <= 0x40000000000000000000000000000000) by (nonlinear_arith)
            requires
                ma <= 0x8000000000000000,
                mb <= 0x8000000000000000,
        ;
    }
    let p: u128 = ma * mb;
    let q: u128 = p / 65536;
    proof {
        lemma_mul_sign_abs(a as int, b as int, ma as int, mb as int);
    }
    if neg {
        if q > FX_MAX as u128 {
            FX_MIN
        } else {
            -(q as i64)
        }
    } else {
        if q > FX_MAX as u128 {
            FX_MAX
        } else {
            q as i64
        }
    }
}

/// Fixed-point division, rounded toward zero and saturated; a zero divisor
/// yields zero.
pub fn fx_div(a: i64, b: i64) -> (r: i64)
    ensures
        r as int == fx_div_s(a as int, b as int),
{
    if b == 0 {
        return 0;
    }
    let neg: bool = (a < 0) != (b < 0);
    let maw: u128 = if a < 0 {
        (-(a as i128)) as u128
    } else {
        a as u128
    };
    let mb: u128 = if b < 0 {
        (-(b as i128)) as u128
    } else {
        b as u128
    };
    let ma: u128 = maw * 65536;
    let q: u128 = ma / mb;
    proof {
        lemma_mul_sign_abs(a as int, SCALE as int, maw as int, SCALE as int);
        assert(ma as int == absi(a as int * (SCALE as int)));
        if a as int * (SCALE as int) == 0 {
            lemma_div_of0(mb as int);
        }
    }
    if neg {
        if q > FX_MAX as u128 {
            FX_MIN
        } else {
            -(q as i64)
        }
    } else {
        if q > FX_MAX as u128 {
            FX_MAX
        } else {
            q as i64
        }
    }
}

/// Integer square root by bisection.
fn isqrt(x: u128) -> (r: u64)
    requires
        x < 0x100000000000000000000,
    ensures
        is_isqrt(x as int, r as int),
        r < 0x10000000000,
{
    let mut lo: u128 = 0;
    let mut hi: u128 = 0x10000000000;
    proof {
        assert(hi * hi > x) by (nonlinear_arith)
            requires
                x < 0x100000000000000000000,
                hi == 0x10000000000,
        ;
    }
    while lo + 1 < hi
        invariant
            lo < hi,
            hi <= 0x10000000000,
            lo * lo <= x,
            hi * hi > x,
        decreases hi - lo,
    {
        let mid: u128 = lo + (hi - lo) / 2;
        proof {
            assert(mid * mid <= 0x100000000000000000000) by (nonlinear_arith)
                requires
                    mid <= 0x10000000000,
            ;
        }
        if mid * mid <= x {
            lo = mid;
        } else {
            hi = mid;
        }
    }
    lo as u64
}

/// Fixed-point square root; non-positive inputs yield zero.
pub fn fx_sqrt(a: i64) -> (r: i64)
    ensures
        r as int == fx_sqrt_s(a as int),
        r >= 0,
{
    if a <= 0 {
        return 0;
    }
    let x: u128 = (a as u128) * 65536;
    let s: u64 = isqrt(x);
    proof {
        lemma_isqrt_exists(x as int);
        lemma_isqrt_unique(x as int, s as int, isqrt_s(x as int));
    }
    s as i64
}

/// Clamp a raw value into `[lo, hi]`.
pub fn fx_clamp(v: i64, lo: i64, hi: i64) -> (r: i64)
    ensures
        r as int == fx_clamp_s(v as int, lo as int, hi as int),
{
    if v < lo {
        lo
    } else if v > hi {
        hi
    } else {
        v
    }
}

/// The smaller of two raw values.
pub fn fx_min(a: i64, b: i64) -> (r: i64)
    ensures
        r as int == fx_min_s(a as int, b as int),
{
    if a < b {
        a
    } else {
        b
    }
}

/// The raw value of a small integer number of units.
pub fn fx_of(n: i64) -> (r: i64)
    requires
        -0x800000000000 <= n < 0x800000000000,
    ensures
        r as int == n * (SCALE as int),
{
    n * SCALE
}

/// The raw value of an unsigned 32-bit number of units.
pub fn fx_of_u32(n: u32) -> (r: i64)
    ensures
        r as int == n * (SCALE as int),
        r >= 0,
{
    (n as i64) * SCALE
}

} // verus!
