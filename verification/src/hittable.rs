// The closed set of primitives a scene may hold, scene well-formedness, and
// the closest-hit scan over a primitive list.
//
// The scan tracks the closest qualifying hit and tightens the far window end
// to the current best parameter, so the primitive order in the scene carries
// no meaning for the result.

use vstd::prelude::*;

verus! {

use crate::fixed::Fx;
use crate::ray::{Ray, HitPoint};
use crate::material::{Material, Lambertian, Metal, Dielectric, mat_wf};
use crate::types::{Vector3, v3};
use crate::sphere::{
    Sphere,
    sphere_hit_v,
    sphere_hit_point_v,
    hit_sphere_t,
    lemma_sphere_hit_widen,
    lemma_sphere_hit_narrow_none,
    lemma_sphere_hit_shrink,
    lemma_sphere_hit_self_none,
};

/// Any geometric object testable for ray intersection, as a closed set of
/// variants dispatched by exhaustive match.
#[derive(Clone, Copy, PartialEq, Eq, Structural, Debug)]
pub enum Hittable {
    Sphere(Sphere),
}

/// The intersection result of a primitive: parameter and record, or `None`.
pub open spec fn hittable_hit_v(h: Hittable, r: Ray, t_min: int, t_max: int) -> Option<
    (Fx, HitPoint),
> {
    match h {
        Hittable::Sphere(s) => sphere_hit_v(s, r, t_min, t_max),
    }
}

/// The material a primitive owns.
pub open spec fn hittable_material_v(h: Hittable) -> Option<Material> {
    match h {
        Hittable::Sphere(s) => s.material,
    }
}

/// Construction-time validity of a primitive: positive extent, and a
/// well-formed material present (the renderer relies on both).
pub open spec fn hittable_wf(h: Hittable) -> bool {
    match h {
        Hittable::Sphere(s) => s.radius@ > 0 && (s.material matches Some(m) && mat_wf(m)),
    }
}

/// A well-formed scene: every primitive is well-formed.
pub open spec fn scene_wf(hs: Seq<Hittable>) -> bool {
    forall|i: int| 0 <= i < hs.len() ==> hittable_wf(#[trigger] hs[i])
}

impl Hittable {
    /// Intersect a ray with this primitive over `(t_min, t_max)`, returning
    /// the hit parameter and record.
    pub fn ray_intersaction_t(&self, ray: &Ray, t_min: Fx, t_max: Fx) -> (r: Option<
        (Fx, HitPoint),
    >)
        ensures
            r == hittable_hit_v(*self, *ray, t_min@, t_max@),
    {
        match self {
            Hittable::Sphere(s) => hit_sphere_t(s, ray, t_min, t_max),
        }
    }

    /// Intersect a ray with this primitive, returning only the hit record.
    pub fn ray_intersaction(&self, ray: &Ray, t_min: Fx, t_max: Fx) -> (r: Option<HitPoint>)
        ensures
            r == (match *self {
                Hittable::Sphere(s) => sphere_hit_point_v(s, *ray, t_min@, t_max@),
            }),
    {
        match self.ray_intersaction_t(ray, t_min, t_max) {
            Some(p) => Some(p.1),
            None => None,
        }
    }

    /// The material this primitive owns.
    pub fn material(&self) -> (r: &Option<Material>)
        ensures
            *r == hittable_material_v(*self),
    {
        match self {
            Hittable::Sphere(s) => &s.material,
        }
    }

    /// Check construction-time validity (see `hittable_wf`).
    pub fn is_wf(&self) -> (r: bool)
        ensures
            r == hittable_wf(*self),
    {
        match self {
            Hittable::Sphere(s) => {
                s.radius.gt(Fx::zero()) && (match &s.material {
                    Some(m) => m.is_wf(),
                    None => false,
                })
            },
        }
    }
}

/// Check that every primitive of a scene is well-formed; the renderer's
/// contracts assume this, so callers test it once at scene-build time.
pub fn scene_ok(hittables: &Vec<Hittable>) -> (r: bool)
    ensures
        r == scene_wf(hittables@),
{
    let n = hittables.len();
    let mut j: usize = 0;
    while j < n
        invariant
            0 <= j <= n,
            n == hittables@.len(),
            forall|i: int| 0 <= i < j ==> hittable_wf(#[trigger] hittables@[i]),
        decreases n - j,
    {
        if !hittables[j].is_wf() {
            return false;
        }
        j += 1;
    }
    true
}

proof fn lemma_hittable_widen(h: Hittable, r: Ray, t_min: int, tm1: int, tm2: int, t: Fx, hp: HitPoint)
    requires
        hittable_hit_v(h, r, t_min, tm1) == Some((t, hp)),
        tm1 <= tm2,
    ensures
        hittable_hit_v(h, r, t_min, tm2) == Some((t, hp)),
{
    match h {
        Hittable::Sphere(s) => lemma_sphere_hit_widen(s, r, t_min, tm1, tm2, t, hp),
    }
}

proof fn lemma_hittable_narrow_none(h: Hittable, r: Ray, t_min: int, tm1: int, tm2: int)
    requires
        hittable_hit_v(h, r, t_min, tm1) is None,
        tm2 <= tm1,
    ensures
        hittable_hit_v(h, r, t_min, tm2) is None,
{
    match h {
        Hittable::Sphere(s) => lemma_sphere_hit_narrow_none(s, r, t_min, tm1, tm2),
    }
}

proof fn lemma_hittable_self_none(h: Hittable, r: Ray, t_min: int, t_max: int, t: Fx, hp: HitPoint)
    requires
        hittable_hit_v(h, r, t_min, t_max) == Some((t, hp)),
    ensures
        hittable_hit_v(h, r, t_min, t@) is None,
{
    match h {
        Hittable::Sphere(s) => lemma_sphere_hit_self_none(s, r, t_min, t_max, t, hp),
    }
}

/// Scan the whole scene for the closest qualifying hit.
///
/// The contract pins the winner down: the returned primitive really reports
/// this hit over the full window, and no primitive at all hits strictly
/// closer (the window truncated at the winner's parameter is empty for every
/// list entry, the winner included). Scene order therefore cannot influence
/// the result.
#[verifier::rlimit(100)]
pub fn find_nearest_hit(hittables: &Vec<Hittable>, ray: &Ray, t_min: Fx, t_max: Fx) -> (r: Option<
    (usize, Fx, HitPoint),
>)
    ensures
        r is None ==> forall|k: int|
            0 <= k < hittables@.len() ==> hittable_hit_v(
                #[trigger] hittables@[k],
                *ray,
                t_min@,
                t_max@,
            ) is None,
        r matches Some((i, t, hp)) ==> {
            &&& 0 <= (i as int) < hittables@.len()
            &&& hittable_hit_v(hittables@[i as int], *ray, t_min@, t_max@) == Some((t, hp))
            &&& t_min@ < t@ < t_max@
            &&& forall|k: int|
                0 <= k < hittables@.len() ==> hittable_hit_v(
                    #[trigger] hittables@[k],
                    *ray,
                    t_min@,
                    t@,
                ) is None
        },
{
    let n = hittables.len();
    let mut best: Option<(usize, Fx, HitPoint)> = None;
    let mut closest = t_max;
    let mut j: usize = 0;
    while j < n
        invariant
            0 <= j <= n,
            n == hittables@.len(),
            best is None ==> closest == t_max && forall|k: int|
                0 <= k < j ==> hittable_hit_v(#[trigger] hittables@[k], *ray, t_min@, t_max@)
                    is None,
            best matches Some((i, t, hp)) ==> {
                &&& 0 <= (i as int) < j
                &&& closest == t
                &&& t_min@ < t@ < t_max@
                &&& hittable_hit_v(hittables@[i as int], *ray, t_min@, t_max@) == Some((t, hp))
                &&& forall|k: int|
                    0 <= k < j ==> hittable_hit_v(#[trigger] hittables@[k], *ray, t_min@, t@)
                        is None
            },
        decreases n - j,
    {
        let h = hittables[j];
        let ghost old_best = best;
        let ghost old_closest = closest;
        match h.ray_intersaction_t(ray, t_min, closest) {
            Some((t, hp)) => {
                proof {
                    if old_best is None {
                        // First hit: every earlier primitive already missed
                        // the full window; truncate those misses at `t`.
                        assert forall|k: int| 0 <= k < j implies hittable_hit_v(
                            #[trigger] hittables@[k],
                            *ray,
                            t_min@,
                            t@,
                        ) is None by {
                            lemma_hittable_narrow_none(hittables@[k], *ray, t_min@, t_max@, t@);
                        }
                    } else {
                        let (i0, t0, hp0) = old_best->Some_0;
                        // A strictly closer hit: widen its window back to the
                        // original far end, and truncate earlier misses.
                        lemma_hittable_widen(hittables@[j as int], *ray, t_min@, t0@, t_max@, t, hp);
                        assert forall|k: int| 0 <= k < j implies hittable_hit_v(
                            #[trigger] hittables@[k],
                            *ray,
                            t_min@,
                            t@,
                        ) is None by {
                            lemma_hittable_narrow_none(hittables@[k], *ray, t_min@, t0@, t@);
                        }
                    }
                    // The winner itself has no hit strictly before `t`.
                    lemma_hittable_self_none(hittables@[j as int], *ray, t_min@, old_closest@, t, hp);
                }
                best = Some((j, t, hp));
                closest = t;
            },
            None => {
                proof {
                    if old_best is Some {
                        let (i0, t0, hp0) = old_best->Some_0;
                        assert(hittable_hit_v(hittables@[j as int], *ray, t_min@, t0@) is None);
                    }
                }
            },
        }
        j += 1;
    }
    best
}

/// The demonstration scene's ground: a huge diffuse yellow-green sphere
/// below the camera (albedo 0.8, 0.8, 0 on the grid; center y = -100.5).
pub open spec fn default_ground_v() -> Hittable {
    Hittable::Sphere(
        Sphere {
            origin: v3(0, -6586368, -65536),
            radius: Fx { bits: 6553600 },
            material: Some(
                Material::Lambertian(Lambertian { albedo: v3(52428, 52428, 0) }),
            ),
        },
    )
}

/// The glass sphere on the left (refractive index 1.5 on the grid).
pub open spec fn default_left_v() -> Hittable {
    Hittable::Sphere(
        Sphere {
            origin: v3(-65536, 0, -65536),
            radius: Fx { bits: 32768 },
            material: Some(Material::Dielectric(Dielectric { reflective_index: Fx { bits: 98304 } })),
        },
    )
}

/// The slightly fuzzy gold metal sphere on the right (albedo 0.8, 0.6, 0.2
/// and fuzz 0.05, each floored to the grid).
pub open spec fn default_right_v() -> Hittable {
    Hittable::Sphere(
        Sphere {
            origin: v3(65536, 0, -65536),
            radius: Fx { bits: 32768 },
            material: Some(
                Material::Metal(
                    Metal { albedo: v3(52428, 39321, 13107), fuzziness: Fx { bits: 3276 } },
                ),
            ),
        },
    )
}

/// The matte red sphere in the middle (albedo 0.7, 0.3, 0.3 floored to the
/// grid).
pub open spec fn default_center_v() -> Hittable {
    Hittable::Sphere(
        Sphere {
            origin: v3(0, 0, -65536),
            radius: Fx { bits: 32768 },
            material: Some(
                Material::Lambertian(Lambertian { albedo: v3(45875, 19660, 19660) }),
            ),
        },
    )
}

/// The demonstration scene: a large diffuse ground sphere and three small
/// spheres — diffuse, glass and slightly fuzzy metal — in front of the
/// camera.
pub fn make_default_hittables() -> (hittables: Vec<Hittable>)
    ensures
        scene_wf(hittables@),
        hittables@ == seq![
            default_ground_v(),
            default_left_v(),
            default_right_v(),
            default_center_v(),
        ],
        hittables@.len() == 4,
{
    let material_ground = Material::Lambertian(
        Lambertian::new(
            Vector3::new(Fx::from_ratio(8, 10), Fx::from_ratio(8, 10), Fx::zero()),
        ),
    );
    let material_center = Material::Lambertian(
        Lambertian::new(
            Vector3::new(Fx::from_ratio(7, 10), Fx::from_ratio(3, 10), Fx::from_ratio(3, 10)),
        ),
    );
    let material_left = Material::Dielectric(Dielectric::new(Fx::from_ratio(3, 2)));
    let material_right = Material::Metal(
        Metal::new(
            Vector3::new(Fx::from_ratio(8, 10), Fx::from_ratio(6, 10), Fx::from_ratio(2, 10)),
            Fx::from_ratio(1, 20),
        ),
    );
    let sphere_ground = Sphere {
        origin: Vector3::new(Fx::zero(), Fx::from_ratio(-201, 2), Fx::from_int(-1)),
        radius: Fx::from_int(100),
        material: Some(material_ground),
    };
    let sphere_center = Sphere {
        origin: Vector3::new(Fx::zero(), Fx::zero(), Fx::from_int(-1)),
        radius: Fx::from_ratio(1, 2),
        material: Some(material_center),
    };
    let sphere_left = Sphere {
        origin: Vector3::new(Fx::from_int(-1), Fx::zero(), Fx::from_int(-1)),
        radius: Fx::from_ratio(1, 2),
        material: Some(material_left),
    };
    let sphere_right = Sphere {
        origin: Vector3::new(Fx::from_int(1), Fx::zero(), Fx::from_int(-1)),
        radius: Fx::from_ratio(1, 2),
        material: Some(material_right),
    };
    let mut hittables: Vec<Hittable> = Vec::new();
    hittables.push(Hittable::Sphere(sphere_ground));
    hittables.push(Hittable::Sphere(sphere_left));
    hittables.push(Hittable::Sphere(sphere_right));
    hittables.push(Hittable::Sphere(sphere_center));
    proof {
        assert(hittables@ =~= seq![
            default_ground_v(),
            default_left_v(),
            default_right_v(),
            default_center_v(),
        ]);
        assert(hittable_wf(hittables@[0]));
        assert(hittable_wf(hittables@[1]));
        assert(hittable_wf(hittables@[2]));
        assert(hittable_wf(hittables@[3]));
    }
    hittables
}

/// No scene entry hits strictly closer than the winner of the closest-hit
/// scan: any reported hit of any primitive over the same window has a
/// parameter at least as large.
pub proof fn lemma_nearest_hit_is_closest(
    hs: Seq<Hittable>,
    r: Ray,
    t_min: int,
    t_max: int,
    t: Fx,
    k: int,
    u: Fx,
    h2: HitPoint,
)
    requires
        forall|j: int| 0 <= j < hs.len() ==> hittable_hit_v(#[trigger] hs[j], r, t_min, t@) is None,
        t@ <= t_max,
        0 <= k < hs.len(),
        hittable_hit_v(hs[k], r, t_min, t_max) == Some((u, h2)),
    ensures
        t@ <= u@,
{
    if u@ < t@ {
        match hs[k] {
            Hittable::Sphere(s) => {
                lemma_sphere_hit_shrink(s, r, t_min, t_max, t@, u, h2);
            },
        }
        assert(hittable_hit_v(hs[k], r, t_min, t@) is None);
        assert(false);
    }
}

} // verus!
