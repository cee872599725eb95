//! The randomness boundary: every random draw the tracer makes comes
//! through `random_fx`, so callers thread an explicit seeded generator and
//! renders are reproducible.

use vstd::prelude::*;
use rand::Rng;
use crate::fixed::SCALE;
use crate::vec3::Vec3;
use crate::vec3::v3_len_s;
use crate::vec3::v3_lsq_s;
use crate::vec3::vec3;

verus! {

#[verifier::external_type_specification]
#[verifier::external_body]
pub struct ExStdRng(rand::rngs::StdRng);

/// Relies on rand::Rng::gen_range over a half-open i64 range: the draw lies
/// in [lo, hi), and the call panics only when the range is empty.
#[verifier::external_body]
pub(crate) fn random_fx(rng: &mut rand::rngs::StdRng, lo: i64, hi: i64) -> (r: i64)
    requires
        lo < hi,
    ensures
        lo <= r < hi,
{
    rng.gen_range(lo..hi)
}

/// How many rejection draws a sampler makes before settling for the
/// origin; a draw is rejected with probability below one half, so the
/// fallback is never taken in practice.
pub const MAX_REJECTION_TRIES: u64 = 64;

/// A rejection-sampled point with length strictly below one unit.
pub fn random_point_in_unit_sphere(rng: &mut rand::rngs::StdRng) -> (p: Vec3)
    ensures
        v3_len_s(p@) < SCALE as int,
{
    let mut tries: u64 = 0;
    while tries < MAX_REJECTION_TRIES
        decreases MAX_REJECTION_TRIES - tries,
    {
        let p: Vec3 = vec3(
            random_fx(rng, -SCALE, SCALE),
            random_fx(rng, -SCALE, SCALE),
            random_fx(rng, -SCALE, SCALE),
        );
        if p.length() < SCALE {
            return p;
        }
        tries = tries + 1;
    }
    vec3(0, 0, 0)
}

/// A rejection-sampled point in the z = 0 plane with squared length
/// strictly below one unit.
pub fn random_point_in_unit_disc(rng: &mut rand::rngs::StdRng) -> (p: Vec3)
    ensures
        v3_lsq_s(p@) < SCALE as int,
        p@.z == 0,
{
    let mut tries: u64 = 0;
    while tries < MAX_REJECTION_TRIES
        decreases MAX_REJECTION_TRIES - tries,
    {
        let p: Vec3 = vec3(random_fx(rng, -SCALE, SCALE), random_fx(rng, -SCALE, SCALE), 0);
        if p.length_squared() < SCALE {
            return p;
        }
        tries = tries + 1;
    }
    vec3(0, 0, 0)
}

} // verus!
