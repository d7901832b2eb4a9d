// Materials and their scattering rules.
//
// Every material answers one question: given an incoming ray and the hit it
// produced, what ray carries the path on and what color scales that bounce's
// contribution? `None` means the path is absorbed.

use vstd::prelude::*;

verus! {

use crate::fixed::{Fx, SCALE, fadd_v, fneg_v, fdiv_v, fsub_v, fsqrt_v};
use crate::types::{Vector3, v3, vadd_v, vsub_v, vneg_v, vscale_v, dot_v, normalize_v};
use crate::ray::{Ray, HitPoint};
use crate::rand_geom::{Rng, random_in_unit_sphere, unit_sample_v};

/// The incoming direction mirrored about the normal: `v - (2 (v . n)) n`,
/// with the doubling done exactly and each product floored to the grid.
pub open spec fn reflect_v(v: Vector3, n: Vector3) -> Vector3 {
    let d = dot_v(v, n);
    vsub_v(v, vscale_v(n, fadd_v(d, d)))
}

/// Snell refraction of the unit direction `uv` at a surface with unit normal
/// `n` and refraction ratio `ratio`. The parallel component's squared length
/// deficit is passed through `abs` before the square root, so past the
/// critical angle the ray is transmitted anyway instead of reflecting; this
/// mirrors the renderer's documented physical simplification.
pub open spec fn refract_v(uv: Vector3, n: Vector3, ratio: int) -> Vector3 {
    let cos_theta = dot_v(vneg_v(uv), n);
    let r_out_perp = vscale_v(vadd_v(uv, vscale_v(n, cos_theta)), ratio);
    let deficit = fsub_v(SCALE as int, dot_v(r_out_perp, r_out_perp));
    let deficit_abs = if deficit >= 0 { deficit } else { fneg_v(deficit) };
    let r_out_parallel = vscale_v(n, fneg_v(fsqrt_v(deficit_abs)));
    vadd_v(r_out_perp, r_out_parallel)
}

/// What a Lambertian scatter returns: always a ray from the hit position
/// along `normal + u` for some random unit sample `u`, attenuated by the
/// albedo exactly.
pub open spec fn lambertian_post(m: Lambertian, rec: HitPoint, r: Option<(Vector3, Ray)>) -> bool {
    exists|u: Vector3|
        unit_sample_v(u) && r == Some(
            (m.albedo, Ray { origin: rec.position, direction: vadd_v(rec.normal, u) }),
        )
}

/// What a Metal scatter returns: the normalized incoming direction is
/// reflected and fuzzed by a random unit sample; if the result still points
/// out of the surface the scatter succeeds with the albedo as attenuation,
/// otherwise the path is absorbed.
pub open spec fn metal_post(m: Metal, ray: Ray, rec: HitPoint, r: Option<(Vector3, Ray)>) -> bool {
    exists|u: Vector3|
        unit_sample_v(u) && {
            let dir = vadd_v(
                reflect_v(normalize_v(ray.direction), rec.normal),
                vscale_v(u, m.fuzziness@),
            );
            if dot_v(dir, rec.normal) > 0 {
                r == Some((m.albedo, Ray { origin: rec.position, direction: dir }))
            } else {
                r is None
            }
        }
}

/// What a Dielectric scatter returns: always the refracted ray from the hit
/// position, with no absorption at all. The refraction ratio is `1/index`
/// when the hit is a front face and `index` otherwise.
pub open spec fn dielectric_post(
    m: Dielectric,
    ray: Ray,
    rec: HitPoint,
    r: Option<(Vector3, Ray)>,
) -> bool {
    let ratio = if rec.front_face {
        fdiv_v(SCALE as int, m.reflective_index@)
    } else {
        m.reflective_index@
    };
    r == Some(
        (
            v3(SCALE as int, SCALE as int, SCALE as int),
            Ray {
                origin: rec.position,
                direction: refract_v(normalize_v(ray.direction), rec.normal, ratio),
            },
        ),
    )
}

/// A diffuse surface with the given albedo.
#[derive(Clone, Copy, PartialEq, Eq, Structural, Debug)]
pub struct Lambertian {
    pub albedo: Vector3,
}

impl Lambertian {
    /// A diffuse material; albedo components are linear colors in `[0, 1]`.
    pub fn new(albedo: Vector3) -> (m: Lambertian)
        ensures
            m.albedo == albedo,
    {
        Lambertian { albedo }
    }

    /// Diffuse scatter: bounce towards `normal + random unit vector`,
    /// attenuate by the albedo. Never absorbs.
    pub fn scatter(&self, ray: &Ray, rec: &HitPoint, rng: &mut Rng) -> (r: Option<(Vector3, Ray)>)
        ensures
            lambertian_post(*self, *rec, r),
            r is Some,
            r matches Some(p) ==> p.0 == self.albedo,
    {
        let u = random_in_unit_sphere(rng);
        let scatter_direction = rec.normal.add(u);
        let scattered = Ray { origin: rec.position, direction: scatter_direction };
        let attenuation = self.albedo;
        Some((attenuation, scattered))
    }
}

/// A reflective surface with the given albedo and fuzz radius.
#[derive(Clone, Copy, PartialEq, Eq, Structural, Debug)]
pub struct Metal {
    pub albedo: Vector3,
    pub fuzziness: Fx,
}

impl Metal {
    /// A metal; the fuzz radius must lie in `[0, 1]`.
    pub fn new(albedo: Vector3, fuzziness: Fx) -> (m: Metal)
        requires
            0 <= fuzziness@ <= SCALE as int,
        ensures
            m.albedo == albedo,
            m.fuzziness == fuzziness,
    {
        Metal { albedo, fuzziness }
    }

    /// Specular scatter: reflect the normalized incoming direction, perturb
    /// by `fuzziness` times a random unit vector, and absorb the path if the
    /// result points into the surface.
    pub fn scatter(&self, ray: &Ray, rec: &HitPoint, rng: &mut Rng) -> (r: Option<(Vector3, Ray)>)
        ensures
            metal_post(*self, *ray, *rec, r),
            r matches Some(p) ==> p.0 == self.albedo,
            r matches Some(p) ==> dot_v(p.1.direction, rec.normal) > 0,
    {
        let reflected = reflect(&ray.direction.normalize(), &rec.normal);
        let u = random_in_unit_sphere(rng);
        let scattered_direction = reflected.add(u.scale(self.fuzziness));
        let scattered = Ray { origin: rec.position, direction: scattered_direction };
        let attenuation = self.albedo;
        let keeps_normal_side = scattered_direction.dot(rec.normal).gt(Fx::zero());
        if keeps_normal_side {
            Some((attenuation, scattered))
        } else {
            None
        }
    }
}

/// A transparent surface with the given refractive index.
#[derive(Clone, Copy, PartialEq, Eq, Structural, Debug)]
pub struct Dielectric {
    pub reflective_index: Fx,
}

impl Dielectric {
    /// A dielectric; the refractive index must be positive.
    pub fn new(reflective_index: Fx) -> (m: Dielectric)
        requires
            reflective_index@ > 0,
        ensures
            m.reflective_index == reflective_index,
    {
        Dielectric { reflective_index }
    }

    /// Refracting scatter: always transmit through the surface by Snell's
    /// law with no absorption; see `refract_v` for the critical-angle
    /// simplification.
    pub fn scatter(&self, ray: &Ray, rec: &HitPoint, rng: &mut Rng) -> (r: Option<(Vector3, Ray)>)
        requires
            self.reflective_index@ > 0,
        ensures
            dielectric_post(*self, *ray, *rec, r),
            r is Some,
    {
        let attenuation = Vector3::new(Fx::one(), Fx::one(), Fx::one());
        let etai_over_etat = if rec.front_face {
            Fx::one().div(self.reflective_index)
        } else {
            self.reflective_index
        };
        let unit_direction = ray.direction.normalize();
        let refracted = refract(&unit_direction, &rec.normal, etai_over_etat);
        let scattered = Ray { origin: rec.position, direction: refracted };
        Some((attenuation, scattered))
    }
}

/// The incoming direction mirrored about `n`.
fn reflect(v: &Vector3, n: &Vector3) -> (r: Vector3)
    ensures
        r == reflect_v(*v, *n),
{
    let d = v.dot(*n);
    v.sub(n.scale(d.add(d)))
}

/// Snell refraction of the unit direction `uv` about `n` (see `refract_v`).
fn refract(uv: &Vector3, n: &Vector3, etai_over_etat: Fx) -> (r: Vector3)
    ensures
        r == refract_v(*uv, *n, etai_over_etat@),
{
    let cos_theta = uv.neg().dot(*n);
    let r_out_perp = uv.add(n.scale(cos_theta)).scale(etai_over_etat);
    let deficit = Fx::one().sub(r_out_perp.length_squared());
    let r_out_parallel = n.scale(deficit.abs().sqrt().neg());
    r_out_perp.add(r_out_parallel)
}

proof fn lemma_sq_diff(a: int, b: int)
    ensures
        (a - 2 * b) * (a - 2 * b) == a * a - 4 * (b * a) + 4 * (b * b),
{
    assert((a - 2 * b) * (a - 2 * b) == a * a - 4 * (b * a) + 4 * (b * b)) by (nonlinear_arith);
}

proof fn lemma_mul3_sum(c: int, x: int, y: int, z: int)
    ensures
        c * x + c * y + c * z == c * (x + y + z),
{
    assert(c * x + c * y + c * z == c * (x + y + z)) by (nonlinear_arith);
}

proof fn lemma_prod_swap(p: int, q: int, r: int, s: int)
    ensures
        (p * q) * (r * s) == (p * r) * (q * s),
{
    assert((p * q) * (r * s) == (p * r) * (q * s)) by (nonlinear_arith);
}

/// Mirror reflection about a unit normal preserves length.
///
/// Stated over exact integer arithmetic: vectors carry mantissas (values
/// scaled by `SCALE`), the reflected vector is computed with exact products
/// (so its components carry `SCALE^2`), and the normal squares to exactly
/// one. Then the reflected vector's squared length equals the incoming
/// one's, exactly. The executable `reflect` computes the same expression
/// with each product floored to the grid, so with `fuzziness` zero a Metal
/// scatter preserves the incoming magnitude up to that rounding, and exactly
/// whenever every product lands on the grid.
pub proof fn lemma_reflect_preserves_length(
    vx: int,
    vy: int,
    vz: int,
    nx: int,
    ny: int,
    nz: int,
)
    requires
        nx * nx + ny * ny + nz * nz == (SCALE as int) * (SCALE as int),
    ensures
        ({
            let s2 = (SCALE as int) * (SCALE as int);
            let d = vx * nx + vy * ny + vz * nz;
            let rx = vx * s2 - 2 * (d * nx);
            let ry = vy * s2 - 2 * (d * ny);
            let rz = vz * s2 - 2 * (d * nz);
            rx * rx + ry * ry + rz * rz == (s2 * s2) * (vx * vx + vy * vy + vz * vz)
        }),
{
    let s2 = (SCALE as int) * (SCALE as int);
    let d = vx * nx + vy * ny + vz * nz;
    let ax = vx * s2;
    let ay = vy * s2;
    let az = vz * s2;
    let bx = d * nx;
    let by_ = d * ny;
    let bz = d * nz;
    lemma_sq_diff(ax, bx);
    lemma_sq_diff(ay, by_);
    lemma_sq_diff(az, bz);
    // The squares of the incoming components, rescaled.
    lemma_prod_swap(vx, s2, vx, s2);
    lemma_prod_swap(vy, s2, vy, s2);
    lemma_prod_swap(vz, s2, vz, s2);
    assert(ax * ax + ay * ay + az * az == (vx * vx) * (s2 * s2) + (vy * vy) * (s2 * s2) + (vz
        * vz) * (s2 * s2));
    lemma_mul3_sum(s2 * s2, vx * vx, vy * vy, vz * vz);
    assert((vx * vx) * (s2 * s2) == (s2 * s2) * (vx * vx)) by (nonlinear_arith);
    assert((vy * vy) * (s2 * s2) == (s2 * s2) * (vy * vy)) by (nonlinear_arith);
    assert((vz * vz) * (s2 * s2) == (s2 * s2) * (vz * vz)) by (nonlinear_arith);
    assert(ax * ax + ay * ay + az * az == (s2 * s2) * (vx * vx + vy * vy + vz * vz));
    // The mixed terms: 4 * (b . a) summed is 4 * d^2 * s2.
    lemma_prod_swap(d, nx, vx, s2);
    lemma_prod_swap(d, ny, vy, s2);
    lemma_prod_swap(d, nz, vz, s2);
    assert(bx * ax + by_ * ay + bz * az == (d * vx) * (nx * s2) + (d * vy) * (ny * s2) + (d * vz)
        * (nz * s2));
    assert((d * vx) * (nx * s2) == (d * s2) * (vx * nx)) by (nonlinear_arith);
    assert((d * vy) * (ny * s2) == (d * s2) * (vy * ny)) by (nonlinear_arith);
    assert((d * vz) * (nz * s2) == (d * s2) * (vz * nz)) by (nonlinear_arith);
    lemma_mul3_sum(d * s2, vx * nx, vy * ny, vz * nz);
    assert(bx * ax + by_ * ay + bz * az == (d * s2) * d);
    // The squared-normal terms: 4 * (b . b) is 4 * d^2 * s2 as well.
    lemma_prod_swap(d, nx, d, nx);
    lemma_prod_swap(d, ny, d, ny);
    lemma_prod_swap(d, nz, d, nz);
    lemma_mul3_sum(d * d, nx * nx, ny * ny, nz * nz);
    assert(bx * bx + by_ * by_ + bz * bz == (d * d) * s2);
    assert((d * s2) * d == (d * d) * s2) by (nonlinear_arith);
    // Assemble: the mixed and squared-normal contributions cancel.
    assert((ax - 2 * bx) * (ax - 2 * bx) + (ay - 2 * by_) * (ay - 2 * by_) + (az - 2 * bz) * (az
        - 2 * bz) == (s2 * s2) * (vx * vx + vy * vy + vz * vz));
}

/// What a scatter returns, by variant: the union of the three rules above.
#[verifier::opaque]
pub open spec fn material_post(
    m: Material,
    ray: Ray,
    rec: HitPoint,
    r: Option<(Vector3, Ray)>,
) -> bool {
    match m {
        Material::Lambertian(l) => lambertian_post(l, rec, r),
        Material::Metal(mm) => metal_post(mm, ray, rec, r),
        Material::Dielectric(d) => dielectric_post(d, ray, rec, r),
    }
}

/// Every successful scatter of a well-formed material attenuates by a
/// legal linear color: the albedo for Lambertian and Metal, pure white for
/// Dielectric.
pub proof fn lemma_material_post_attenuation_range(
    m: Material,
    ray: Ray,
    rec: HitPoint,
    sc: Option<(Vector3, Ray)>,
)
    requires
        mat_wf(m),
        material_post(m, ray, rec, sc),
        sc is Some,
    ensures
        0 <= sc->Some_0.0.x@ <= SCALE as int,
        0 <= sc->Some_0.0.y@ <= SCALE as int,
        0 <= sc->Some_0.0.z@ <= SCALE as int,
{
    reveal(material_post);
    match m {
        Material::Lambertian(l) => {
            assert(sc->Some_0.0 == l.albedo);
        },
        Material::Metal(mm) => {
            assert(sc->Some_0.0 == mm.albedo);
        },
        Material::Dielectric(d) => {
            assert(sc->Some_0.0 == v3(SCALE as int, SCALE as int, SCALE as int));
        },
    }
}

/// The closed set of material variants, dispatched by one `scatter` call.
#[derive(Clone, Copy, PartialEq, Eq, Structural, Debug)]
pub enum Material {
    Lambertian(Lambertian),
    Metal(Metal),
    Dielectric(Dielectric),
}

/// Construction-time validity of a material: color components are linear
/// `[0, 1]` values, fuzz lies in `[0, 1]`, a refractive index is positive.
pub open spec fn mat_wf(m: Material) -> bool {
    match m {
        Material::Lambertian(l) => 0 <= l.albedo.x@ <= SCALE as int && 0 <= l.albedo.y@
            <= SCALE as int && 0 <= l.albedo.z@ <= SCALE as int,
        Material::Metal(mm) => 0 <= mm.albedo.x@ <= SCALE as int && 0 <= mm.albedo.y@
            <= SCALE as int && 0 <= mm.albedo.z@ <= SCALE as int && 0 <= mm.fuzziness@
            <= SCALE as int,
        Material::Dielectric(d) => d.reflective_index@ > 0,
    }
}

impl Material {
    /// Check construction-time validity (see `mat_wf`).
    pub fn is_wf(&self) -> (r: bool)
        ensures
            r == mat_wf(*self),
    {
        match self {
            Material::Lambertian(l) => {
                Fx::zero().le(l.albedo.x) && l.albedo.x.le(Fx::one()) && Fx::zero().le(l.albedo.y)
                    && l.albedo.y.le(Fx::one()) && Fx::zero().le(l.albedo.z) && l.albedo.z.le(
                    Fx::one(),
                )
            },
            Material::Metal(m) => {
                Fx::zero().le(m.albedo.x) && m.albedo.x.le(Fx::one()) && Fx::zero().le(m.albedo.y)
                    && m.albedo.y.le(Fx::one()) && Fx::zero().le(m.albedo.z) && m.albedo.z.le(
                    Fx::one(),
                ) && Fx::zero().le(m.fuzziness) && m.fuzziness.le(Fx::one())
            },
            Material::Dielectric(d) => Fx::zero().lt(d.reflective_index),
        }
    }

    /// Scatter the incoming ray at `rec` according to the variant's rule.
    pub fn scatter(&self, ray: &Ray, rec: &HitPoint, rng: &mut Rng) -> (r: Option<(Vector3, Ray)>)
        requires
            mat_wf(*self),
        ensures
            material_post(*self, *ray, *rec, r),
    {
        proof {
            reveal(material_post);
        }
        match self {
            Material::Lambertian(l) => l.scatter(ray, rec, rng),
            Material::Metal(m) => m.scatter(ray, rec, rng),
            Material::Dielectric(d) => d.scatter(ray, rec, rng),
        }
    }
}

} // verus!
