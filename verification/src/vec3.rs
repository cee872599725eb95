//! Three-component fixed-point vectors, used as positions, directions,
//! normals and colors.

use vstd::prelude::*;
use crate::fixed::SCALE;
use crate::fixed::FX_MAX;
use crate::fixed::FX_MIN;
use crate::fixed::sat;
use crate::fixed::fx_add_s;
use crate::fixed::fx_sub_s;
use crate::fixed::fx_neg_s;
use crate::fixed::fx_mul_s;
use crate::fixed::fx_div_s;
use crate::fixed::fx_sqrt_s;
use crate::fixed::fx_clamp_s;
use crate::fixed::tdiv;
use crate::fixed::lemma_tdiv_neg;
use crate::fixed::lemma_sat_neg;
use crate::fixed::lemma_fx_square_nonneg;
use crate::fixed::sat_i128;
use crate::fixed::fx_add;
use crate::fixed::fx_sub;
use crate::fixed::fx_neg;
use crate::fixed::fx_mul;
use crate::fixed::fx_div;
use crate::fixed::fx_sqrt;
use crate::fixed::fx_clamp;
use crate::fixed::fx_min;
use crate::fixed::fx_min_s;

verus! {

/// Exact mathematical image of a vector: unbounded integer raw components.
pub ghost struct V3 {
    pub x: int,
    pub y: int,
    pub z: int,
}

/// A vector of three fixed-point components.
#[derive(Clone, Copy, PartialEq, Eq, Structural, Debug)]
pub struct Vec3 {
    pub x: i64,
    pub y: i64,
    pub z: i64,
}

impl View for Vec3 {
    type V = V3;

    open spec fn view(&self) -> V3 {
        V3 { x: self.x as int, y: self.y as int, z: self.z as int }
    }
}

/// The zero vector.
pub open spec fn v3_zero() -> V3 {
    V3 { x: 0, y: 0, z: 0 }
}

/// Componentwise saturating sum.
pub open spec fn v3_add_s(a: V3, b: V3) -> V3 {
    V3 { x: fx_add_s(a.x, b.x), y: fx_add_s(a.y, b.y), z: fx_add_s(a.z, b.z) }
}

/// Componentwise saturating difference.
pub open spec fn v3_sub_s(a: V3, b: V3) -> V3 {
    V3 { x: fx_sub_s(a.x, b.x), y: fx_sub_s(a.y, b.y), z: fx_sub_s(a.z, b.z) }
}

/// Componentwise saturating negation.
pub open spec fn v3_neg_s(a: V3) -> V3 {
    V3 { x: fx_neg_s(a.x), y: fx_neg_s(a.y), z: fx_neg_s(a.z) }
}

/// Scale every component by the fixed-point factor `s`.
pub open spec fn v3_scale_s(a: V3, s: int) -> V3 {
    V3 { x: fx_mul_s(a.x, s), y: fx_mul_s(a.y, s), z: fx_mul_s(a.z, s) }
}

/// Componentwise fixed-point product.
pub open spec fn v3_cmul_s(a: V3, b: V3) -> V3 {
    V3 { x: fx_mul_s(a.x, b.x), y: fx_mul_s(a.y, b.y), z: fx_mul_s(a.z, b.z) }
}

/// Divide every component by the fixed-point value `s`.
pub open spec fn v3_div_fx_s(a: V3, s: int) -> V3 {
    V3 { x: fx_div_s(a.x, s), y: fx_div_s(a.y, s), z: fx_div_s(a.z, s) }
}

/// Dot product: three fixed-point products, summed exactly, then saturated
/// once.
pub open spec fn v3_dot_s(a: V3, b: V3) -> int {
    sat(fx_mul_s(a.x, b.x) + fx_mul_s(a.y, b.y) + fx_mul_s(a.z, b.z))
}

/// Cross product.
pub open spec fn v3_cross_s(a: V3, b: V3) -> V3 {
    V3 {
        x: fx_sub_s(fx_mul_s(a.y, b.z), fx_mul_s(a.z, b.y)),
        y: fx_sub_s(fx_mul_s(a.z, b.x), fx_mul_s(a.x, b.z)),
        z: fx_sub_s(fx_mul_s(a.x, b.y), fx_mul_s(a.y, b.x)),
    }
}

/// Squared length.
pub open spec fn v3_lsq_s(a: V3) -> int {
    v3_dot_s(a, a)
}

/// Length.
pub open spec fn v3_len_s(a: V3) -> int {
    fx_sqrt_s(v3_lsq_s(a))
}

/// Normalization: each component divided by the length. A zero-length
/// vector normalizes to zero.
pub open spec fn v3_norm_s(a: V3) -> V3 {
    v3_div_fx_s(a, v3_len_s(a))
}

/// Mirror `v` about the plane with normal `n`.
pub open spec fn v3_reflect_s(v: V3, n: V3) -> V3 {
    v3_sub_s(v, v3_scale_s(n, fx_add_s(v3_dot_s(v, n), v3_dot_s(v, n))))
}

/// Refraction by Snell's law: `uv` is the incoming unit direction, `n` the
/// surface normal, `eta` the ratio of refractive indices. The
/// perpendicular part is `eta * (uv + cos_theta * n)`; the parallel part
/// points into the surface with the length that restores a unit result
/// (the square root clamps a negative radicand to zero).
pub open spec fn v3_refract_s(uv: V3, n: V3, eta: int) -> V3 {
    let cos = fx_min_s(v3_dot_s(v3_neg_s(uv), n), SCALE as int);
    let perp = v3_scale_s(v3_add_s(uv, v3_scale_s(n, cos)), eta);
    let par = v3_scale_s(n, fx_neg_s(fx_sqrt_s(fx_sub_s(SCALE as int, v3_lsq_s(perp)))));
    v3_add_s(perp, par)
}

/// Componentwise clamp.
pub open spec fn v3_clamp_s(a: V3, lo: int, hi: int) -> V3 {
    V3 {
        x: fx_clamp_s(a.x, lo, hi),
        y: fx_clamp_s(a.y, lo, hi),
        z: fx_clamp_s(a.z, lo, hi),
    }
}

/// Componentwise square root.
pub open spec fn v3_sqrt_s(a: V3) -> V3 {
    V3 { x: fx_sqrt_s(a.x), y: fx_sqrt_s(a.y), z: fx_sqrt_s(a.z) }
}

/// Build a vector from raw components.
pub fn vec3(x: i64, y: i64, z: i64) -> (r: Vec3)
    ensures
        r@ == (V3 { x: x as int, y: y as int, z: z as int }),
{
    Vec3 { x, y, z }
}

impl Default for Vec3 {
    /// The zero vector.
    fn default() -> (r: Vec3)
        ensures
            r@ == v3_zero(),
    {
        Vec3 { x: 0, y: 0, z: 0 }
    }
}

impl Vec3 {
    /// The zero vector.
    pub fn zero() -> (r: Vec3)
        ensures
            r@ == v3_zero(),
    {
        Vec3 { x: 0, y: 0, z: 0 }
    }

    /// Componentwise saturating sum.
    pub fn add(&self, o: Vec3) -> (r: Vec3)
        ensures
            r@ == v3_add_s(self@, o@),
    {
        Vec3 { x: fx_add(self.x, o.x), y: fx_add(self.y, o.y), z: fx_add(self.z, o.z) }
    }

    /// Componentwise saturating difference.
    pub fn sub(&self, o: Vec3) -> (r: Vec3)
        ensures
            r@ == v3_sub_s(self@, o@),
    {
        Vec3 { x: fx_sub(self.x, o.x), y: fx_sub(self.y, o.y), z: fx_sub(self.z, o.z) }
    }

    /// Componentwise saturating negation.
    pub fn neg(&self) -> (r: Vec3)
        ensures
            r@ == v3_neg_s(self@),
    {
        Vec3 { x: fx_neg(self.x), y: fx_neg(self.y), z: fx_neg(self.z) }
    }

    /// Scale every component by the fixed-point factor `s`.
    pub fn scale(&self, s: i64) -> (r: Vec3)
        ensures
            r@ == v3_scale_s(self@, s as int),
    {
        Vec3 { x: fx_mul(self.x, s), y: fx_mul(self.y, s), z: fx_mul(self.z, s) }
    }

    /// Componentwise fixed-point product.
    pub fn cmul(&self, o: Vec3) -> (r: Vec3)
        ensures
            r@ == v3_cmul_s(self@, o@),
    {
        Vec3 { x: fx_mul(self.x, o.x), y: fx_mul(self.y, o.y), z: fx_mul(self.z, o.z) }
    }

    /// Divide every component by the fixed-point value `s`.
    pub fn div_fx(&self, s: i64) -> (r: Vec3)
        ensures
            r@ == v3_div_fx_s(self@, s as int),
    {
        Vec3 { x: fx_div(self.x, s), y: fx_div(self.y, s), z: fx_div(self.z, s) }
    }

    /// Dot product.
    pub fn dot(&self, o: Vec3) -> (r: i64)
        ensures
            r as int == v3_dot_s(self@, o@),
    {
        let m1: i64 = fx_mul(self.x, o.x);
        let m2: i64 = fx_mul(self.y, o.y);
        let m3: i64 = fx_mul(self.z, o.z);
        sat_i128(m1 as i128 + m2 as i128 + m3 as i128)
    }

    /// Cross product.
    pub fn cross(&self, o: Vec3) -> (r: Vec3)
        ensures
            r@ == v3_cross_s(self@, o@),
    {
        Vec3 {
            x: fx_sub(fx_mul(self.y, o.z), fx_mul(self.z, o.y)),
            y: fx_sub(fx_mul(self.z, o.x), fx_mul(self.x, o.z)),
            z: fx_sub(fx_mul(self.x, o.y), fx_mul(self.y, o.x)),
        }
    }

    /// Squared length.
    pub fn length_squared(&self) -> (r: i64)
        ensures
            r as int == v3_lsq_s(self@),
            r >= 0,
    {
        proof {
            lemma_v3_lsq_nonneg(self@);
        }
        self.dot(*self)
    }

    /// Length.
    pub fn length(&self) -> (r: i64)
        ensures
            r as int == v3_len_s(self@),
            r >= 0,
    {
        fx_sqrt(self.length_squared())
    }

    /// Normalization; a zero-length vector normalizes to zero.
    pub fn normalize(&self) -> (r: Vec3)
        ensures
            r@ == v3_norm_s(self@),
    {
        let len: i64 = self.length();
        self.div_fx(len)
    }

    /// Mirror `self` about the plane with normal `n`.
    pub fn reflect(&self, n: Vec3) -> (r: Vec3)
        ensures
            r@ == v3_reflect_s(self@, n@),
    {
        let d: i64 = self.dot(n);
        self.sub(n.scale(fx_add(d, d)))
    }

    /// Refraction by Snell's law; `self` should be a unit direction.
    pub fn refract(&self, n: Vec3, eta: i64) -> (r: Vec3)
        ensures
            r@ == v3_refract_s(self@, n@, eta as int),
    {
        let cos: i64 = fx_min(self.neg().dot(n), SCALE);
        let perp: Vec3 = self.add(n.scale(cos)).scale(eta);
        let par: Vec3 = n.scale(fx_neg(fx_sqrt(fx_sub(SCALE, perp.length_squared()))));
        perp.add(par)
    }

    /// Componentwise clamp.
    pub fn clamp(&self, lo: i64, hi: i64) -> (r: Vec3)
        ensures
            r@ == v3_clamp_s(self@, lo as int, hi as int),
    {
        Vec3 {
            x: fx_clamp(self.x, lo, hi),
            y: fx_clamp(self.y, lo, hi),
            z: fx_clamp(self.z, lo, hi),
        }
    }

    /// Componentwise square root.
    pub fn sqrt(&self) -> (r: Vec3)
        ensures
            r@ == v3_sqrt_s(self@),
    {
        Vec3 { x: fx_sqrt(self.x), y: fx_sqrt(self.y), z: fx_sqrt(self.z) }
    }
}

/// A squared length is never negative.
pub proof fn lemma_v3_lsq_nonneg(a: V3)
    ensures
        0 <= v3_lsq_s(a),
        v3_lsq_s(a) <= 3 * (FX_MAX as int),
{
    lemma_fx_square_nonneg(a.x);
    lemma_fx_square_nonneg(a.y);
    lemma_fx_square_nonneg(a.z);
}

/// Dotting against a negated vector negates the dot product, as long as the
/// negation itself is exact (every component within the symmetric range).
pub proof fn lemma_v3_dot_neg(d: V3, o: V3)
    requires
        FX_MIN as int <= o.x <= FX_MAX as int,
        FX_MIN as int <= o.y <= FX_MAX as int,
        FX_MIN as int <= o.z <= FX_MAX as int,
    ensures
        v3_dot_s(d, v3_neg_s(o)) == -v3_dot_s(d, o),
{
    lemma_fx_mul_neg(d.x, o.x);
    lemma_fx_mul_neg(d.y, o.y);
    lemma_fx_mul_neg(d.z, o.z);
    lemma_sat_neg(fx_mul_s(d.x, o.x) + fx_mul_s(d.y, o.y) + fx_mul_s(d.z, o.z));
}

/// Negating one factor negates a fixed-point product exactly, for factors
/// within the symmetric range.
pub proof fn lemma_fx_mul_neg(a: int, b: int)
    requires
        FX_MIN as int <= b <= FX_MAX as int,
    ensures
        fx_mul_s(a, fx_neg_s(b)) == -fx_mul_s(a, b),
{
    assert(fx_neg_s(b) == -b);
    assert(a * (-b) == -(a * b)) by (nonlinear_arith);
    lemma_tdiv_neg(a * b, SCALE as int);
    lemma_sat_neg(tdiv(a * b, SCALE as int));
}

} // verus!
