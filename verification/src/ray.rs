//! Rays: an origin and a direction, with point evaluation.

use vstd::prelude::*;
use crate::vec3::Vec3;
use crate::vec3::V3;
use crate::vec3::v3_add_s;
use crate::vec3::v3_scale_s;

verus! {

/// A half-line from `origin` along `dir`; the point at parameter `t` is
/// `origin + t * dir`.
#[derive(Clone, Copy, PartialEq, Eq, Structural, Debug)]
pub struct Ray {
    pub origin: Vec3,
    pub dir: Vec3,
}

/// The point a ray reaches at parameter `t`.
pub open spec fn ray_at_s(r: Ray, t: int) -> V3 {
    v3_add_s(r.origin@, v3_scale_s(r.dir@, t))
}

impl Ray {
    /// The point at parameter `t`.
    pub fn at(&self, t: i64) -> (p: Vec3)
        ensures
            p@ == ray_at_s(*self, t as int),
    {
        self.origin.add(self.dir.scale(t))
    }
}

} // verus!
