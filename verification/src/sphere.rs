// Spheres and ray/sphere intersection.
//
// The intersection solves `|O + tD - C|^2 = r^2` through the quadratic
// discriminant, evaluates both roots, and picks the smallest one strictly
// inside `(t_min, t_max)`; testing both roots matters when the ray starts
// inside the sphere. Degenerate geometry (a zero-squared-length direction or
// a non-positive radius) reports no hit instead of dividing by zero.

use vstd::prelude::*;

verus! {

use crate::fixed::{Fx, SCALE, fadd_v, fsub_v, fneg_v, fmul_v, fdiv_v, fsqrt_v, lemma_fsqrt_nonneg};
use vstd::arithmetic::div_mod::lemma_div_is_ordered;
use crate::types::{Vector3, v3, vsub_v, dot_v};
use crate::ray::{Ray, HitPoint, ray_at_v};
use crate::material::Material;

/// A sphere, owning the material its surface scatters with.
#[derive(Clone, Copy, PartialEq, Eq, Structural, Debug)]
pub struct Sphere {
    pub origin: Vector3,
    /// Must be positive for the sphere to be hittable.
    pub radius: Fx,
    pub material: Option<Material>,
}

/// `a`: squared length of the ray direction (the quadratic's leading term).
pub open spec fn sphere_a_v(s: Sphere, r: Ray) -> int {
    dot_v(r.direction, r.direction)
}

/// `b`: twice the projection of origin-minus-center on the direction.
pub open spec fn sphere_b_v(s: Sphere, r: Ray) -> int {
    let half_b = dot_v(vsub_v(r.origin, s.origin), r.direction);
    fadd_v(half_b, half_b)
}

/// `c`: squared distance to the center, less the squared radius.
pub open spec fn sphere_c_v(s: Sphere, r: Ray) -> int {
    let oc = vsub_v(r.origin, s.origin);
    fsub_v(dot_v(oc, oc), fmul_v(s.radius@, s.radius@))
}

/// The discriminant `b^2 - 4 a c`, with the doublings done exactly.
pub open spec fn sphere_disc_v(s: Sphere, r: Ray) -> int {
    let b = sphere_b_v(s, r);
    let four_a = fadd_v(fadd_v(sphere_a_v(s, r), sphere_a_v(s, r)), fadd_v(sphere_a_v(s, r), sphere_a_v(s, r)));
    fsub_v(fmul_v(b, b), fmul_v(four_a, sphere_c_v(s, r)))
}

/// The near root `(-b - sqrt(disc)) / (2a)`.
pub open spec fn sphere_t1_v(s: Sphere, r: Ray) -> int {
    let b = sphere_b_v(s, r);
    let sq = fsqrt_v(sphere_disc_v(s, r));
    fdiv_v(fsub_v(fneg_v(b), sq), fadd_v(sphere_a_v(s, r), sphere_a_v(s, r)))
}

/// The far root `(-b + sqrt(disc)) / (2a)`.
pub open spec fn sphere_t2_v(s: Sphere, r: Ray) -> int {
    let b = sphere_b_v(s, r);
    let sq = fsqrt_v(sphere_disc_v(s, r));
    fdiv_v(fadd_v(fneg_v(b), sq), fadd_v(sphere_a_v(s, r), sphere_a_v(s, r)))
}

/// The full intersection result: parameter and hit record, or `None`.
///
/// Mirrors the executable arithmetic step by step: doublings are exact sums,
/// every product and quotient is floored to the grid. Both roots are
/// evaluated and the smaller qualifying one wins. The normal is
/// `(position - center) / radius`, unit length up to rounding; `front_face`
/// is the sign of `normal . direction` (true when the direction leaves along
/// the normal).
pub open spec fn sphere_hit_v(s: Sphere, r: Ray, t_min: int, t_max: int) -> Option<(Fx, HitPoint)> {
    if sphere_a_v(s, r) <= 0 || s.radius@ <= 0 || sphere_disc_v(s, r) <= 0 {
        None
    } else {
        let t1 = sphere_t1_v(s, r);
        let t2 = sphere_t2_v(s, r);
        if t_min < t1 < t_max {
            Some(sphere_hit_at_v(s, r, t1))
        } else if t_min < t2 < t_max {
            Some(sphere_hit_at_v(s, r, t2))
        } else {
            None
        }
    }
}

/// The near root never lies beyond the far root.
pub proof fn lemma_sphere_roots_ordered(s: Sphere, r: Ray)
    requires
        sphere_a_v(s, r) > 0,
    ensures
        sphere_t1_v(s, r) <= sphere_t2_v(s, r),
{
    let a = sphere_a_v(s, r);
    let b = sphere_b_v(s, r);
    let sq = fsqrt_v(sphere_disc_v(s, r));
    lemma_fsqrt_nonneg(sphere_disc_v(s, r));
    let two_a = fadd_v(a, a);
    let n1 = fsub_v(fneg_v(b), sq);
    let n2 = fadd_v(fneg_v(b), sq);
    assert(n1 <= n2);
    lemma_div_is_ordered(n1 * (SCALE as int), n2 * (SCALE as int), two_a);
}

/// The hit record for a qualifying root `t` (radius positive).
pub open spec fn sphere_hit_at_v(s: Sphere, r: Ray, t: int) -> (Fx, HitPoint) {
    let position = ray_at_v(r, t);
    let outward = vsub_v(position, s.origin);
    let normal = v3(
        fdiv_v(outward.x@, s.radius@),
        fdiv_v(outward.y@, s.radius@),
        fdiv_v(outward.z@, s.radius@),
    );
    (
        Fx { bits: t as i64 },
        HitPoint { position, normal, front_face: dot_v(normal, r.direction) > 0 },
    )
}

/// Only the hit record, with the parameter dropped.
pub open spec fn sphere_hit_point_v(s: Sphere, r: Ray, t_min: int, t_max: int) -> Option<
    HitPoint,
> {
    match sphere_hit_v(s, r, t_min, t_max) {
        Some((t, h)) => Some(h),
        None => None,
    }
}

/// Widening the far end of the window keeps the same hit: a root selected
/// inside a narrow window is still the selected root of any wider one.
pub proof fn lemma_sphere_hit_widen(
    s: Sphere,
    r: Ray,
    t_min: int,
    tm1: int,
    tm2: int,
    t: Fx,
    h: HitPoint,
)
    requires
        sphere_hit_v(s, r, t_min, tm1) == Some((t, h)),
        tm1 <= tm2,
    ensures
        sphere_hit_v(s, r, t_min, tm2) == Some((t, h)),
{
    lemma_sphere_roots_ordered(s, r);
}

/// Narrowing the far end of the window cannot create a hit out of a miss.
pub proof fn lemma_sphere_hit_narrow_none(s: Sphere, r: Ray, t_min: int, tm1: int, tm2: int)
    requires
        sphere_hit_v(s, r, t_min, tm1) is None,
        tm2 <= tm1,
    ensures
        sphere_hit_v(s, r, t_min, tm2) is None,
{
}

/// Shrinking the far end of the window to anything still above the reported
/// parameter keeps the same hit.
pub proof fn lemma_sphere_hit_shrink(
    s: Sphere,
    r: Ray,
    t_min: int,
    tm1: int,
    tm2: int,
    t: Fx,
    h: HitPoint,
)
    requires
        sphere_hit_v(s, r, t_min, tm1) == Some((t, h)),
        t@ < tm2 <= tm1,
    ensures
        sphere_hit_v(s, r, t_min, tm2) == Some((t, h)),
{
    lemma_sphere_roots_ordered(s, r);
}

/// Truncating the window at the reported parameter itself leaves no hit:
/// the reported root was the smallest qualifying one.
pub proof fn lemma_sphere_hit_self_none(
    s: Sphere,
    r: Ray,
    t_min: int,
    t_max: int,
    t: Fx,
    h: HitPoint,
)
    requires
        sphere_hit_v(s, r, t_min, t_max) == Some((t, h)),
    ensures
        sphere_hit_v(s, r, t_min, t@) is None,
{
    lemma_sphere_roots_ordered(s, r);
}

/// Intersect a ray with a sphere over the open parameter window
/// `(t_min, t_max)`, returning the hit parameter and record.
pub fn hit_sphere_t(sphere: &Sphere, ray: &Ray, t_min: Fx, t_max: Fx) -> (r: Option<(Fx, HitPoint)>)
    ensures
        r == sphere_hit_v(*sphere, *ray, t_min@, t_max@),
{
    let oc = ray.origin.sub(sphere.origin);
    let a = ray.direction.dot(ray.direction);
    let half_b = oc.dot(ray.direction);
    let b = half_b.add(half_b);
    let c = oc.dot(oc).sub(sphere.radius.mul(sphere.radius));
    let two_a = a.add(a);
    let four_a = two_a.add(two_a);
    let discriminant = b.mul(b).sub(four_a.mul(c));
    if a.le(Fx::zero()) || sphere.radius.le(Fx::zero()) || discriminant.le(Fx::zero()) {
        return None;
    }
    let sq = discriminant.sqrt();
    let t1 = b.neg().sub(sq).div(two_a);
    let t2 = b.neg().add(sq).div(two_a);
    let t_hit = if t_min.lt(t1) && t1.lt(t_max) {
        t1
    } else if t_min.lt(t2) && t2.lt(t_max) {
        t2
    } else {
        return None;
    };
    let position = ray.at(t_hit);
    let outward = position.sub(sphere.origin);
    let normal = Vector3::new(
        outward.x.div(sphere.radius),
        outward.y.div(sphere.radius),
        outward.z.div(sphere.radius),
    );
    let front_face = normal.dot(ray.direction).gt(Fx::zero());
    Some((t_hit, HitPoint { position, normal, front_face }))
}

/// Intersect a ray with a sphere, returning only the hit record.
pub fn hit_sphere(sphere: &Sphere, ray: &Ray, t_min: Fx, t_max: Fx) -> (r: Option<HitPoint>)
    ensures
        r == sphere_hit_point_v(*sphere, *ray, t_min@, t_max@),
{
    match hit_sphere_t(sphere, ray, t_min, t_max) {
        Some(p) => Some(p.1),
        None => None,
    }
}

impl Sphere {
    /// Intersect a ray with this sphere (method form of `hit_sphere`).
    pub fn ray_intersaction(&self, ray: &Ray, t_min: Fx, t_max: Fx) -> (r: Option<HitPoint>)
        ensures
            r == sphere_hit_point_v(*self, *ray, t_min@, t_max@),
    {
        hit_sphere(self, ray, t_min, t_max)
    }
}

} // verus!
