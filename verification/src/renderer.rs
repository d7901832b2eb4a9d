// The renderer: recursive radiance evaluation, per-pixel sampling, and the
// row-by-row driver that fills the pixel buffer.

use vstd::prelude::*;

// The samplers the scattering and antialiasing draw from live beside the
// other random geometry; the renderer re-exports the unit sampler under its
// own path as well.
pub use crate::rand_geom::random_in_unit_sphere;

verus! {

use crate::fixed::{Fx, SCALE, SAT_MAX, fadd_v, fsub_v, fmul_v, fdiv_v, clamp01_v, lemma_fmul_unit_range};
use crate::types::{
    Vector3,
    v3,
    vadd_v,
    vmul_v,
    vscale_v,
    vsqrt_v,
    vector3f_to_rgb8,
    to_byte_v,
    normalize_v,
    PointwiseSqrtExt,
    Rgb8,
    Size2,
    Vector2i,
};
use crate::ray::{Ray, HitPoint};
use crate::hittable::{
    Hittable,
    hittable_hit_v,
    hittable_material_v,
    hittable_wf,
    scene_wf,
    find_nearest_hit,
};
use crate::material::{Material, material_post, lemma_material_post_attenuation_range};
use crate::camera::{Camera, camera_ray_v};
use crate::viewport::{viewport_wf, int_fx};
use crate::image::{
    Image,
    image_wf,
    pixel_byte_index,
    lemma_pixel_byte_index_bounds,
    lemma_pixel_byte_index_injective,
};
use crate::rand_geom::Rng;

/// The near end of every hit window: a small positive bias that keeps a
/// bounced ray from immediately re-hitting the surface it left.
pub const T_MIN_BITS: i64 = 65;

/// How the renderer is driven: whether pixels are averaged over jittered
/// samples, how many, and how many bounces a path may take.
#[derive(Clone, Copy, PartialEq, Eq, Structural, Debug)]
pub struct RendererSettings {
    pub antialiasing_on: bool,
    pub antialiasing_samples: u32,
    pub max_depth: u32,
}

/// Settings the sampling loop can honor: averaging needs a sample.
pub open spec fn settings_wf(s: RendererSettings) -> bool {
    s.antialiasing_on ==> s.antialiasing_samples >= 1
}

/// The renderer; it holds only its settings and never mutates the scene.
#[derive(Clone, Copy, PartialEq, Eq, Structural, Debug)]
pub struct Renderer {
    pub settings: RendererSettings,
}

/// The sky: a vertical gradient from white straight down to sky blue
/// straight up, `(1 - t) * white + t * blue` with `t = (unit_y + 1) / 2`.
/// The blend parameter is clamped into `[0, 1]`: in exact arithmetic a unit
/// direction already keeps it there, but grid normalization can overshoot
/// on directions shorter than the grid can square, and the clamp keeps the
/// gradient inside its stated range for those too.
pub open spec fn background_v(r: Ray) -> Vector3 {
    let unit = normalize_v(r.direction);
    let t = clamp01_v(fmul_v((SCALE as int) / 2, fadd_v(unit.y@, SCALE as int)));
    vadd_v(
        vscale_v(v3(SCALE as int, SCALE as int, SCALE as int), fsub_v(SCALE as int, t)),
        vscale_v(v3((SCALE as int) / 2, 45875, SCALE as int), t),
    )
}

/// The background is always a legal linear color inside the gradient's
/// stated range: the x channel lies between one half and one, the y channel
/// between the sky's 0.7 endpoint (floored to the grid) and one, and the
/// blue channel is exactly one — for every direction, the clamp on the
/// blend parameter included.
pub proof fn lemma_background_range(r: Ray)
    ensures
        ({
            let c = background_v(r);
            &&& (SCALE as int) / 2 <= c.x@ <= SCALE as int
            &&& 45875 <= c.y@ <= SCALE as int
            &&& c.z@ == SCALE as int
        }),
{
    let s = SCALE as int;
    let uy = normalize_v(r.direction).y@;
    let t = clamp01_v(fmul_v(s / 2, fadd_v(uy, s)));
    assert(0 <= t <= s);
    // Scaling by one is exact.
    vstd::arithmetic::div_mod::lemma_div_multiples_vanish(s - t, 65536);
    vstd::arithmetic::div_mod::lemma_div_multiples_vanish(t, 65536);
    assert(fmul_v(s, s - t) == s - t);
    assert(fmul_v(s, t) == t);
    // The half and 0.7 scalings of t shrink it, and lose less than one
    // grid step to the floor, which pins both channels' lower ends.
    vstd::arithmetic::div_mod::lemma_div_pos_is_pos(32768 * t, 65536);
    vstd::arithmetic::div_mod::lemma_div_is_ordered(32768 * t, 65536 * t, 65536);
    vstd::arithmetic::div_mod::lemma_fundamental_div_mod(32768 * t, 65536);
    vstd::arithmetic::div_mod::lemma_mod_bound(32768 * t, 65536);
    vstd::arithmetic::div_mod::lemma_div_pos_is_pos(45875 * t, 65536);
    vstd::arithmetic::div_mod::lemma_div_is_ordered(45875 * t, 65536 * t, 65536);
    vstd::arithmetic::div_mod::lemma_fundamental_div_mod(45875 * t, 65536);
    vstd::arithmetic::div_mod::lemma_mod_bound(45875 * t, 65536);
}

/// The ray meets no primitive of the scene inside the render window.
pub open spec fn scene_misses_v(hs: Seq<Hittable>, r: Ray) -> bool {
    forall|k: int|
        0 <= k < hs.len() ==> hittable_hit_v(
            #[trigger] hs[k],
            r,
            T_MIN_BITS as int,
            SAT_MAX as int,
        ) is None
}

/// A sample sum averaged over `n` samples and gamma-2 corrected: each
/// channel is divided by the count and square-rooted.
pub open spec fn average_gamma_v(sum: Vector3, n: int) -> Vector3 {
    vsqrt_v(
        v3(
            fdiv_v(sum.x@, int_fx(n)),
            fdiv_v(sum.y@, int_fx(n)),
            fdiv_v(sum.z@, int_fx(n)),
        ),
    )
}

/// What `eval_ray_color` may return, stated over every admissible random
/// outcome. An exhausted depth forces black; a scene miss forces the exact
/// background; otherwise some scene entry reports the nearest hit and the
/// color comes from an admissible bounce off it.
#[verifier::opaque]
pub open spec fn ray_color_ok(hs: Seq<Hittable>, r: Ray, depth: nat, color: Vector3) -> bool
    decreases depth, 4int,
{
    if depth == 0 {
        color == v3(0, 0, 0)
    } else if scene_misses_v(hs, r) {
        color == background_v(r)
    } else {
        exists|i: int| #![trigger hs[i]] 0 <= i < hs.len() && nearest_bounce_ok(hs, r, i, depth, color)
    }
}

/// Scene entry `i` reports the nearest hit for `r` (no entry hits strictly
/// closer), and `color` is an admissible result of bouncing off it with its
/// own material.
#[verifier::opaque]
pub open spec fn nearest_bounce_ok(
    hs: Seq<Hittable>,
    r: Ray,
    i: int,
    depth: nat,
    color: Vector3,
) -> bool
    decreases depth, 3int,
{
    match hittable_hit_v(hs[i], r, T_MIN_BITS as int, SAT_MAX as int) {
        Some(p) => {
            &&& (forall|k: int|
                0 <= k < hs.len() ==> hittable_hit_v(
                    #[trigger] hs[k],
                    r,
                    T_MIN_BITS as int,
                    p.0@,
                ) is None)
            &&& (match hittable_material_v(hs[i]) {
                Some(m) => bounce_ok(hs, r, m, p.1, depth, color),
                None => false,
            })
        },
        None => false,
    }
}

/// `color` results from some scatter outcome material `m` admits at `rec`.
#[verifier::opaque]
pub open spec fn bounce_ok(
    hs: Seq<Hittable>,
    r: Ray,
    m: Material,
    rec: HitPoint,
    depth: nat,
    color: Vector3,
) -> bool
    decreases depth, 2int,
{
    exists|sc: Option<(Vector3, Ray)>|
        #[trigger] material_post(m, r, rec, sc) && scatter_color_ok(hs, sc, depth, color)
}

/// The color one scatter outcome yields: black for an absorbed path, else
/// the attenuation multiplied componentwise into an admissible color of the
/// scattered ray, one bounce deeper.
#[verifier::opaque]
pub open spec fn scatter_color_ok(
    hs: Seq<Hittable>,
    sc: Option<(Vector3, Ray)>,
    depth: nat,
    color: Vector3,
) -> bool
    decreases depth, 1int,
{
    match sc {
        None => color == v3(0, 0, 0),
        Some(p) => scattered_color_ok(hs, p.0, p.1, depth, color),
    }
}

/// `color` is `attenuation` multiplied componentwise into `c2`: the
/// single-bounce throughput step (and the trigger shape the relational
/// specs quantify over).
pub open spec fn attenuated(attenuation: Vector3, c2: Vector3, color: Vector3) -> bool {
    color == vmul_v(attenuation, c2)
}

/// The color a successful scatter yields: the attenuation multiplied
/// componentwise into an admissible color of the scattered ray, one bounce
/// deeper.
#[verifier::opaque]
pub open spec fn scattered_color_ok(
    hs: Seq<Hittable>,
    attenuation: Vector3,
    scattered: Ray,
    depth: nat,
    color: Vector3,
) -> bool
    decreases depth, 0int,
{
    if depth > 0 {
        exists|c2: Vector3|
            ray_color_ok(hs, scattered, (depth - 1) as nat, c2) && #[trigger] attenuated(
                attenuation,
                c2,
                color,
            )
    } else {
        false
    }
}

/// A successful scatter outcome together with an admissible recursive
/// color assembles into an admissible bounce color.
proof fn lemma_scatter_color_some(
    hs: Seq<Hittable>,
    attenuation: Vector3,
    scattered: Ray,
    depth: nat,
    c2: Vector3,
    color: Vector3,
)
    requires
        depth > 0,
        ray_color_ok(hs, scattered, (depth - 1) as nat, c2),
        color == vmul_v(attenuation, c2),
    ensures
        scatter_color_ok(hs, Some((attenuation, scattered)), depth, color),
{
    reveal_with_fuel(scattered_color_ok, 1);
    reveal_with_fuel(ray_color_ok, 1);
    assert(attenuated(attenuation, c2, color));
    assert(scattered_color_ok(hs, attenuation, scattered, depth, color));
    reveal_with_fuel(scatter_color_ok, 1);
}

/// Chain a nearest hit, its material's admissible scatter outcome, and the
/// outcome's admissible color into the radiance relation.
proof fn lemma_ray_color_ok_hit(
    hs: Seq<Hittable>,
    r: Ray,
    i: int,
    t: Fx,
    hp: HitPoint,
    m: Material,
    sc: Option<(Vector3, Ray)>,
    depth: nat,
    color: Vector3,
)
    requires
        depth > 0,
        0 <= i < hs.len(),
        hittable_hit_v(hs[i], r, T_MIN_BITS as int, SAT_MAX as int) == Some((t, hp)),
        forall|k: int|
            0 <= k < hs.len() ==> hittable_hit_v(
                #[trigger] hs[k],
                r,
                T_MIN_BITS as int,
                t@,
            ) is None,
        hittable_material_v(hs[i]) == Some(m),
        material_post(m, r, hp, sc),
        scatter_color_ok(hs, sc, depth, color),
    ensures
        ray_color_ok(hs, r, depth, color),
{
    reveal_with_fuel(bounce_ok, 1);
    reveal_with_fuel(nearest_bounce_ok, 1);
    reveal_with_fuel(ray_color_ok, 1);
    reveal_with_fuel(scatter_color_ok, 1);
    assert(bounce_ok(hs, r, m, hp, depth, color));
    assert(nearest_bounce_ok(hs, r, i, depth, color));
    assert(!scene_misses_v(hs, r));
    assert(exists|i0: int| 0 <= i0 < hs.len() && #[trigger] nearest_bounce_ok(
        hs,
        r,
        i0,
        depth,
        color,
    ));
    assert(ray_color_ok(hs, r, depth, color));
}

/// One admissible antialiasing sample for the given half-pixel jitters:
/// an admissible color of the jittered primary ray.
pub open spec fn jittered_sample_ok(
    hs: Seq<Hittable>,
    cam: Camera,
    pix: Vector2i,
    jy: int,
    jx: int,
    depth: nat,
    c: Vector3,
) -> bool {
    &&& -(SCALE as int) / 2 <= jy < (SCALE as int) / 2
    &&& -(SCALE as int) / 2 <= jx < (SCALE as int) / 2
    &&& ray_color_ok(
        hs,
        camera_ray_v(cam, fadd_v(int_fx(pix.y as int), jy), fadd_v(int_fx(pix.x as int), jx)),
        depth,
        c,
    )
}

/// An admissible antialiasing sample: some half-pixel jitter produced it.
pub open spec fn sample_ok(
    hs: Seq<Hittable>,
    cam: Camera,
    pix: Vector2i,
    depth: nat,
    c: Vector3,
) -> bool {
    exists|jy: int, jx: int| #[trigger] jittered_sample_ok(hs, cam, pix, jy, jx, depth, c)
}

/// The componentwise sum of a sequence of linear sample colors, accumulated
/// left to right.
pub open spec fn sum_v(samples: Seq<Vector3>) -> Vector3
    decreases samples.len(),
{
    if samples.len() == 0 {
        v3(0, 0, 0)
    } else {
        vadd_v(sum_v(samples.drop_last()), samples.last())
    }
}

/// `samples` are that many admissible jittered samples and `color` is the
/// 8-bit quantization of their gamma-corrected mean.
pub open spec fn samples_quantize_ok(
    settings: RendererSettings,
    cam: Camera,
    hs: Seq<Hittable>,
    pix: Vector2i,
    samples: Seq<Vector3>,
    color: Rgb8,
) -> bool {
    let avg = average_gamma_v(sum_v(samples), settings.antialiasing_samples as int);
    &&& samples.len() == settings.antialiasing_samples
    &&& (forall|s: int|
        0 <= s < samples.len() ==> sample_ok(
            hs,
            cam,
            pix,
            settings.max_depth as nat,
            #[trigger] samples[s],
        ))
    &&& color.r as int == to_byte_v(avg.x@)
    &&& color.g as int == to_byte_v(avg.y@)
    &&& color.b as int == to_byte_v(avg.z@)
}

/// What `eval_pixel_color` may return. Antialiasing on: the quantization of
/// the gamma-corrected mean of `antialiasing_samples` admissible jittered
/// samples. Off: the quantization, with no gamma correction, of one
/// admissible color of the pixel's deterministic primary ray.
pub open spec fn pixel_color_ok(
    settings: RendererSettings,
    cam: Camera,
    hs: Seq<Hittable>,
    pix: Vector2i,
    color: Rgb8,
) -> bool {
    if settings.antialiasing_on {
        exists|samples: Seq<Vector3>|
            #[trigger] samples_quantize_ok(settings, cam, hs, pix, samples, color)
    } else {
        exists|c: Vector3|
            {
                &&& #[trigger] ray_color_ok(
                    hs,
                    camera_ray_v(cam, int_fx(pix.y as int), int_fx(pix.x as int)),
                    settings.max_depth as nat,
                    c,
                )
                &&& color.r as int == to_byte_v(c.x@)
                &&& color.g as int == to_byte_v(c.y@)
                &&& color.b as int == to_byte_v(c.z@)
            }
    }
}

/// The three plane bytes of pixel `(x, y)` hold the channels of a color
/// the per-pixel contract admits for that pixel.
pub open spec fn pixel_written_ok(
    settings: RendererSettings,
    cam: Camera,
    hs: Seq<Hittable>,
    data: Seq<u8>,
    w: int,
    h: int,
    x: int,
    y: int,
) -> bool {
    exists|rgb: Rgb8|
        {
            &&& #[trigger] pixel_color_ok(
                settings,
                cam,
                hs,
                Vector2i { x: x as i32, y: y as i32 },
                rgb,
            )
            &&& data[pixel_byte_index(w, h, x, y, 0)] == rgb.r
            &&& data[pixel_byte_index(w, h, x, y, 1)] == rgb.g
            &&& data[pixel_byte_index(w, h, x, y, 2)] == rgb.b
        }
}

/// A pixel whose three plane bytes did not change keeps its admissible
/// color.
proof fn lemma_pixel_written_preserved(
    settings: RendererSettings,
    cam: Camera,
    hs: Seq<Hittable>,
    old_data: Seq<u8>,
    new_data: Seq<u8>,
    w: int,
    h: int,
    x: int,
    y: int,
)
    requires
        pixel_written_ok(settings, cam, hs, old_data, w, h, x, y),
        new_data[pixel_byte_index(w, h, x, y, 0)] == old_data[pixel_byte_index(w, h, x, y, 0)],
        new_data[pixel_byte_index(w, h, x, y, 1)] == old_data[pixel_byte_index(w, h, x, y, 1)],
        new_data[pixel_byte_index(w, h, x, y, 2)] == old_data[pixel_byte_index(w, h, x, y, 2)],
    ensures
        pixel_written_ok(settings, cam, hs, new_data, w, h, x, y),
{
    let rgb = choose|rgb: Rgb8|
        {
            &&& #[trigger] pixel_color_ok(
                settings,
                cam,
                hs,
                Vector2i { x: x as i32, y: y as i32 },
                rgb,
            )
            &&& old_data[pixel_byte_index(w, h, x, y, 0)] == rgb.r
            &&& old_data[pixel_byte_index(w, h, x, y, 1)] == rgb.g
            &&& old_data[pixel_byte_index(w, h, x, y, 2)] == rgb.b
        };
    assert(pixel_color_ok(settings, cam, hs, Vector2i { x: x as i32, y: y as i32 }, rgb));
}

/// Average a linear color sum over `n` samples and apply gamma-2
/// correction (the componentwise square root).
pub fn average_and_gamma_correct(sum: Vector3, n: u32) -> (r: Vector3)
    requires
        n >= 1,
    ensures
        r == average_gamma_v(sum, n as int),
{
    let n_fx = Fx::from_int(n as i64);
    let averaged = Vector3::new(sum.x.div(n_fx), sum.y.div(n_fx), sum.z.div(n_fx));
    averaged.pointwise_sqrt()
}

impl Renderer {
    /// The default renderer: antialiasing on with a hundred samples per
    /// pixel and a bounce budget of fifty.
    pub fn new() -> (r: Renderer)
        ensures
            r.settings == (RendererSettings {
                antialiasing_on: true,
                antialiasing_samples: 100,
                max_depth: 50,
            }),
            settings_wf(r.settings),
    {
        Renderer {
            settings: RendererSettings {
                antialiasing_on: true,
                antialiasing_samples: 100,
                max_depth: 50,
            },
        }
    }

    /// A renderer with the given settings.
    pub fn new_with_settings(settings: RendererSettings) -> (r: Renderer)
        ensures
            r.settings == settings,
    {
        Renderer { settings }
    }

    /// The sky gradient a missing ray resolves to.
    pub fn eval_background_color(&self, r: &Ray) -> (color: Vector3)
        ensures
            color == background_v(*r),
    {
        let unit_direction = r.direction.normalize();
        let half = Fx::from_bits(32768);
        let t = half.mul(unit_direction.y.add(Fx::one())).clamp01();
        let white = Vector3::new(Fx::one(), Fx::one(), Fx::one());
        let sky_blue = Vector3::new(Fx::from_bits(32768), Fx::from_bits(45875), Fx::one());
        white.scale(Fx::one().sub(t)).add(sky_blue.scale(t))
    }

    /// The radiance carried back along a ray, with `remaining_depth` bounces
    /// left.
    ///
    /// An exhausted bounce budget yields black; a miss yields the background
    /// gradient; a hit scatters by the surface's material and multiplies the
    /// recursive radiance by the scatter's attenuation componentwise, with
    /// black for an absorbed path.
    #[verifier::rlimit(100)]
    pub fn eval_ray_color(
        &self,
        r: &Ray,
        hittables: &Vec<Hittable>,
        remaining_depth: u32,
        rng: &mut Rng,
    ) -> (color: Vector3)
        requires
            scene_wf(hittables@),
        ensures
            remaining_depth == 0 ==> color == v3(0, 0, 0),
            remaining_depth > 0 && scene_misses_v(hittables@, *r) ==> color == background_v(*r),
            ray_color_ok(hittables@, *r, remaining_depth as nat, color),
            0 <= color.x@ <= SCALE as int,
            0 <= color.y@ <= SCALE as int,
            0 <= color.z@ <= SCALE as int,
        decreases remaining_depth,
    {
        proof {
            reveal_with_fuel(ray_color_ok, 1);
        }
        if remaining_depth == 0 {
            return Vector3::zeros();
        }
        let ghost depth = remaining_depth as nat;
        let t_min = Fx::from_bits(T_MIN_BITS);
        let t_max = Fx::from_bits(SAT_MAX);
        match find_nearest_hit(hittables, r, t_min, t_max) {
            None => {
                let bg = self.eval_background_color(r);
                proof {
                    assert forall|k: int| 0 <= k < hittables@.len() implies hittable_hit_v(
                        #[trigger] hittables@[k],
                        *r,
                        T_MIN_BITS as int,
                        SAT_MAX as int,
                    ) is None by {
                        assert(hittable_hit_v(hittables@[k], *r, t_min@, t_max@) is None);
                    }
                    assert(scene_misses_v(hittables@, *r));
                    lemma_background_range(*r);
                }
                bg
            },
            Some((i, t, hitpoint)) => {
                proof {
                    assert(hittable_wf(hittables@[i as int]));
                    assert(hittable_hit_v(
                        hittables@[i as int],
                        *r,
                        T_MIN_BITS as int,
                        SAT_MAX as int,
                    ) == Some((t, hitpoint)));
                    assert forall|k: int| 0 <= k < hittables@.len() implies hittable_hit_v(
                        #[trigger] hittables@[k],
                        *r,
                        T_MIN_BITS as int,
                        t@,
                    ) is None by {
                        assert(hittable_hit_v(hittables@[k], *r, t_min@, t@) is None);
                    }
                }
                match hittables[i].material() {
                    Some(material) => {
                        let sc = material.scatter(r, &hitpoint, rng);
                        match sc {
                            Some(scattered) => {
                                let reflected_color = self.eval_ray_color(
                                    &scattered.1,
                                    hittables,
                                    remaining_depth - 1,
                                    rng,
                                );
                                let result = scattered.0.mul_comp(reflected_color);
                                proof {
                                    assert(sc == Some((scattered.0, scattered.1)));
                                    lemma_material_post_attenuation_range(
                                        *material,
                                        *r,
                                        hitpoint,
                                        sc,
                                    );
                                    lemma_fmul_unit_range(scattered.0.x@, reflected_color.x@);
                                    lemma_fmul_unit_range(scattered.0.y@, reflected_color.y@);
                                    lemma_fmul_unit_range(scattered.0.z@, reflected_color.z@);
                                    lemma_scatter_color_some(
                                        hittables@,
                                        scattered.0,
                                        scattered.1,
                                        depth,
                                        reflected_color,
                                        result,
                                    );
                                    lemma_ray_color_ok_hit(
                                        hittables@,
                                        *r,
                                        i as int,
                                        t,
                                        hitpoint,
                                        *material,
                                        sc,
                                        depth,
                                        result,
                                    );
                                }
                                result
                            },
                            None => {
                                let result = Vector3::zeros();
                                proof {
                                    reveal_with_fuel(scatter_color_ok, 1);
                                    assert(scatter_color_ok(hittables@, sc, depth, result));
                                    lemma_ray_color_ok_hit(
                                        hittables@,
                                        *r,
                                        i as int,
                                        t,
                                        hitpoint,
                                        *material,
                                        sc,
                                        depth,
                                        result,
                                    );
                                }
                                result
                            },
                        }
                    },
                    None => {
                        // Unreachable: scene well-formedness gives every
                        // primitive a material.
                        proof {
                            assert(false);
                        }
                        Vector3::zeros()
                    },
                }
            },
        }
    }

    /// The final 8-bit color of one pixel.
    ///
    /// With antialiasing on, the linear colors of `antialiasing_samples`
    /// independently jittered rays are averaged and gamma-corrected by
    /// `average_and_gamma_correct`; otherwise one deterministic ray is
    /// evaluated with no correction. Either way the linear color is clamped
    /// and quantized by `vector3f_to_rgb8`.
    pub fn eval_pixel_color(
        &self,
        camera: &Camera,
        pixel_position: Vector2i,
        hittables: &Vec<Hittable>,
        rng: &mut Rng,
    ) -> (color: Rgb8)
        requires
            scene_wf(hittables@),
            settings_wf(self.settings),
            viewport_wf(camera.viewport),
            0 <= pixel_position.x < camera.viewport.width,
            0 <= pixel_position.y < camera.viewport.height,
        ensures
            ({
                let ray = camera_ray_v(
                    *camera,
                    int_fx(pixel_position.y as int),
                    int_fx(pixel_position.x as int),
                );
                (!self.settings.antialiasing_on && self.settings.max_depth > 0
                    && scene_misses_v(hittables@, ray)) ==> {
                    &&& color.r as int == to_byte_v(background_v(ray).x@)
                    &&& color.g as int == to_byte_v(background_v(ray).y@)
                    &&& color.b as int == to_byte_v(background_v(ray).z@)
                }
            }),
            pixel_color_ok(self.settings, *camera, hittables@, pixel_position, color),
    {
        if self.settings.antialiasing_on {
            let mut pixel_color_vector = Vector3::zeros();
            let samples_count = self.settings.antialiasing_samples;
            let ghost mut samples: Seq<Vector3> = Seq::empty();
            let mut s: u32 = 0;
            while s < samples_count
                invariant
                    scene_wf(hittables@),
                    viewport_wf(camera.viewport),
                    0 <= pixel_position.x < camera.viewport.width,
                    0 <= pixel_position.y < camera.viewport.height,
                    samples_count == self.settings.antialiasing_samples,
                    s <= samples_count,
                    samples.len() == s as nat,
                    pixel_color_vector == sum_v(samples),
                    forall|k: int|
                        0 <= k < samples.len() ==> sample_ok(
                            hittables@,
                            *camera,
                            pixel_position,
                            self.settings.max_depth as nat,
                            #[trigger] samples[k],
                        ),
                decreases samples_count - s,
            {
                let ray = camera.get_random_ray_from_image_xy(pixel_position, rng);
                let sample_color = self.eval_ray_color(
                    &ray,
                    hittables,
                    self.settings.max_depth,
                    rng,
                );
                pixel_color_vector = pixel_color_vector.add(sample_color);
                proof {
                    let (jy, jx) = choose|jy: int, jx: int|
                        {
                            &&& -(SCALE as int) / 2 <= jy < (SCALE as int) / 2
                            &&& -(SCALE as int) / 2 <= jx < (SCALE as int) / 2
                            &&& ray == camera_ray_v(
                                *camera,
                                fadd_v(int_fx(pixel_position.y as int), jy),
                                fadd_v(int_fx(pixel_position.x as int), jx),
                            )
                        };
                    assert(jittered_sample_ok(
                        hittables@,
                        *camera,
                        pixel_position,
                        jy,
                        jx,
                        self.settings.max_depth as nat,
                        sample_color,
                    ));
                    assert(sample_ok(
                        hittables@,
                        *camera,
                        pixel_position,
                        self.settings.max_depth as nat,
                        sample_color,
                    ));
                    let prev = samples;
                    samples = samples.push(sample_color);
                    assert(samples.drop_last() =~= prev);
                    assert(samples.last() == sample_color);
                    assert(pixel_color_vector == sum_v(samples));
                }
                s += 1;
            }
            let corrected = average_and_gamma_correct(pixel_color_vector, samples_count);
            let out = vector3f_to_rgb8(corrected);
            proof {
                assert(samples_quantize_ok(
                    self.settings,
                    *camera,
                    hittables@,
                    pixel_position,
                    samples,
                    out,
                ));
                assert(pixel_color_ok(self.settings, *camera, hittables@, pixel_position, out));
            }
            out
        } else {
            let ray = camera.get_ray_from_image_xy(pixel_position);
            let ray_color = self.eval_ray_color(&ray, hittables, self.settings.max_depth, rng);
            let out = vector3f_to_rgb8(ray_color);
            proof {
                assert(ray_color_ok(
                    hittables@,
                    camera_ray_v(
                        *camera,
                        int_fx(pixel_position.y as int),
                        int_fx(pixel_position.x as int),
                    ),
                    self.settings.max_depth as nat,
                    ray_color,
                ));
                assert(pixel_color_ok(self.settings, *camera, hittables@, pixel_position, out));
            }
            out
        }
    }

    /// Render the whole viewport into a fresh planar pixel buffer, rows top
    /// to bottom, columns left to right. Pixels are independent: no pixel's
    /// value feeds another's.
    pub fn run(&self, camera: &Camera, hittables: &Vec<Hittable>, rng: &mut Rng) -> (image: Image)
        requires
            scene_wf(hittables@),
            settings_wf(self.settings),
            viewport_wf(camera.viewport),
            3 * (camera.viewport.width as int) * (camera.viewport.height as int) <= usize::MAX
                as int,
        ensures
            image_wf(image),
            image.size.w == camera.viewport.width,
            image.size.h == camera.viewport.height,
            forall|x: int, y: int|
                0 <= x < camera.viewport.width && 0 <= y < camera.viewport.height
                    ==> #[trigger] pixel_written_ok(
                    self.settings,
                    *camera,
                    hittables@,
                    image.data@,
                    camera.viewport.width as int,
                    camera.viewport.height as int,
                    x,
                    y,
                ),
    {
        let width = camera.viewport.image_width();
        let height = camera.viewport.image_height();
        let image_size = Size2::new(height, width);
        let mut image = Image::new(image_size);
        let mut image_y: i32 = 0;
        while image_y < height
            invariant
                scene_wf(hittables@),
                settings_wf(self.settings),
                viewport_wf(camera.viewport),
                width == camera.viewport.width,
                height == camera.viewport.height,
                image_wf(image),
                image.size.w == width,
                image.size.h == height,
                0 <= image_y,
                forall|xx: int, yy: int|
                    0 <= xx < width && 0 <= yy < image_y ==> #[trigger] pixel_written_ok(
                        self.settings,
                        *camera,
                        hittables@,
                        image.data@,
                        width as int,
                        height as int,
                        xx,
                        yy,
                    ),
            decreases height - image_y,
        {
            let mut image_x: i32 = 0;
            while image_x < width
                invariant
                    scene_wf(hittables@),
                    settings_wf(self.settings),
                    viewport_wf(camera.viewport),
                    width == camera.viewport.width,
                    height == camera.viewport.height,
                    image_wf(image),
                    image.size.w == width,
                    image.size.h == height,
                    0 <= image_y < height,
                    0 <= image_x,
                    forall|xx: int, yy: int|
                        0 <= xx < width && 0 <= yy < image_y ==> #[trigger] pixel_written_ok(
                            self.settings,
                            *camera,
                            hittables@,
                            image.data@,
                            width as int,
                            height as int,
                            xx,
                            yy,
                        ),
                    forall|xx: int|
                        0 <= xx < image_x ==> #[trigger] pixel_written_ok(
                            self.settings,
                            *camera,
                            hittables@,
                            image.data@,
                            width as int,
                            height as int,
                            xx,
                            image_y as int,
                        ),
                decreases width - image_x,
            {
                let pixel_position = Vector2i::new(image_x, image_y);
                let pixel_color = self.eval_pixel_color(camera, pixel_position, hittables, rng);
                let ghost data_before = image.data@;
                image.set_pixel(pixel_position, pixel_color);
                proof {
                    let w_i = width as int;
                    let h_i = height as int;
                    let xi = image_x as int;
                    let yi = image_y as int;
                    lemma_pixel_byte_index_bounds(w_i, h_i, xi, yi);
                    assert(w_i * h_i >= 1) by (nonlinear_arith)
                        requires
                            w_i >= 1,
                            h_i >= 1,
                    ;
                    assert(3 * w_i * h_i == w_i * h_i + (w_i * h_i + w_i * h_i))
                        by (nonlinear_arith);
                    let i0 = pixel_byte_index(w_i, h_i, xi, yi, 0);
                    let i1 = pixel_byte_index(w_i, h_i, xi, yi, 1);
                    let i2 = pixel_byte_index(w_i, h_i, xi, yi, 2);
                    assert(image.data@[i0] == pixel_color.r);
                    assert(image.data@[i1] == pixel_color.g);
                    assert(image.data@[i2] == pixel_color.b);
                    assert(pixel_color_ok(
                        self.settings,
                        *camera,
                        hittables@,
                        Vector2i { x: xi as i32, y: yi as i32 },
                        pixel_color,
                    ));
                    // The freshly written pixel holds its admissible color.
                    assert(pixel_written_ok(
                        self.settings,
                        *camera,
                        hittables@,
                        image.data@,
                        w_i,
                        h_i,
                        xi,
                        yi,
                    ));
                    // Every previously written pixel kept its bytes.
                    assert forall|xx: int, yy: int|
                        0 <= xx < w_i && 0 <= yy < h_i && !(xx == xi && yy == yi)
                            && pixel_written_ok(
                            self.settings,
                            *camera,
                            hittables@,
                            data_before,
                            w_i,
                            h_i,
                            xx,
                            yy,
                        ) implies #[trigger] pixel_written_ok(
                        self.settings,
                        *camera,
                        hittables@,
                        image.data@,
                        w_i,
                        h_i,
                        xx,
                        yy,
                    ) by {
                        lemma_pixel_byte_index_bounds(w_i, h_i, xx, yy);
                        assert(3 * w_i * h_i == w_i * h_i + (w_i * h_i + w_i * h_i))
                            by (nonlinear_arith);
                        lemma_pixel_byte_index_injective(w_i, h_i, xx, yy, 0, xi, yi, 0);
                        lemma_pixel_byte_index_injective(w_i, h_i, xx, yy, 0, xi, yi, 1);
                        lemma_pixel_byte_index_injective(w_i, h_i, xx, yy, 0, xi, yi, 2);
                        lemma_pixel_byte_index_injective(w_i, h_i, xx, yy, 1, xi, yi, 0);
                        lemma_pixel_byte_index_injective(w_i, h_i, xx, yy, 1, xi, yi, 1);
                        lemma_pixel_byte_index_injective(w_i, h_i, xx, yy, 1, xi, yi, 2);
                        lemma_pixel_byte_index_injective(w_i, h_i, xx, yy, 2, xi, yi, 0);
                        lemma_pixel_byte_index_injective(w_i, h_i, xx, yy, 2, xi, yi, 1);
                        lemma_pixel_byte_index_injective(w_i, h_i, xx, yy, 2, xi, yi, 2);
                        lemma_pixel_written_preserved(
                            self.settings,
                            *camera,
                            hittables@,
                            data_before,
                            image.data@,
                            w_i,
                            h_i,
                            xx,
                            yy,
                        );
                    }
                }
                image_x += 1;
            }
            proof {
                // The finished row joins the fully written rows.
                assert forall|xx: int, yy: int|
                    0 <= xx < width && 0 <= yy < image_y as int + 1 implies #[trigger] pixel_written_ok(
                    self.settings,
                    *camera,
                    hittables@,
                    image.data@,
                    width as int,
                    height as int,
                    xx,
                    yy,
                ) by {
                    if yy == image_y as int {
                        assert(pixel_written_ok(
                            self.settings,
                            *camera,
                            hittables@,
                            image.data@,
                            width as int,
                            height as int,
                            xx,
                            image_y as int,
                        ));
                    }
                }
            }
            image_y += 1;
        }
        image
    }
}

} // verus!
