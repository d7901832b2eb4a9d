// Rays and intersection records.

use vstd::prelude::*;

verus! {

use crate::fixed::Fx;
use crate::types::{Vector3, vadd_v, vscale_v};

/// The point a ray reaches after parameter `t`: `origin + t * direction`.
pub open spec fn ray_at_v(r: Ray, t: int) -> Vector3 {
    vadd_v(r.origin, vscale_v(r.direction, t))
}

/// A half-line from `origin` along `direction`; the direction need not be
/// normalized.
#[derive(Clone, Copy, PartialEq, Eq, Structural, Debug)]
pub struct Ray {
    pub origin: Vector3,
    pub direction: Vector3,
}

impl Ray {
    /// The point at parameter `t` along the ray.
    pub fn at(&self, t: Fx) -> (p: Vector3)
        ensures
            p == ray_at_v(*self, t@),
    {
        self.origin.add(self.direction.scale(t))
    }
}

/// One intersection: where the ray met the surface, the unit outward normal
/// there, and on which side of the surface the ray runs.
///
/// `front_face` records the sign of `normal . direction`: it is true exactly
/// when the ray direction leaves along the normal. Dielectric scattering
/// branches on this convention, so it is part of the contract.
#[derive(Clone, Copy, PartialEq, Eq, Structural, Debug)]
pub struct HitPoint {
    pub position: Vector3,
    /// Unit-length outward surface normal.
    pub normal: Vector3,
    pub front_face: bool,
}

} // verus!
