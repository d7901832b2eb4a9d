// The renderer: background gradient, depth termination, whole-image runs,
// and antialiasing convergence.

use raytracer::camera::Camera;
use raytracer::fixed::Fx;
use raytracer::hittable::{make_default_hittables, scene_ok, Hittable};
use raytracer::material::{Lambertian, Material};
use raytracer::rand_geom::Rng;
use raytracer::ray::Ray;
use raytracer::renderer::{average_and_gamma_correct, Renderer, RendererSettings};
use raytracer::sphere::Sphere;
use raytracer::types::{Vector2i, Vector3};

fn v(x: i64, y: i64, z: i64) -> Vector3 {
    Vector3::new(Fx::from_int(x), Fx::from_int(y), Fx::from_int(z))
}

// Straight up resolves to sky blue, straight down to white.
#[test]
fn background_gradient_endpoints() {
    let renderer = Renderer::new();
    let up = Ray { origin: v(0, 0, 0), direction: v(0, 1, 0) };
    let sky = renderer.eval_background_color(&up);
    assert_eq!(sky.x.bits, 32768);
    assert_eq!(sky.y.bits, 45875);
    assert_eq!(sky.z.bits, 65536);
    let down = Ray { origin: v(0, 0, 0), direction: v(0, -1, 0) };
    assert_eq!(renderer.eval_background_color(&down), v(1, 1, 1));
}

// Directions shorter than the grid can square make normalization
// overshoot; the clamped blend parameter keeps the gradient inside its
// stated range anyway, snapping to the nearest endpoint.
#[test]
fn background_stays_in_range_on_degenerate_directions() {
    let renderer = Renderer::new();
    // Slightly more than 1/256 of a unit upward: the grid "unit" vector has
    // y > 1, so the blend clamps to the sky endpoint.
    let tiny_up = Ray {
        origin: v(0, 0, 0),
        direction: Vector3::new(Fx::zero(), Fx::from_bits(257), Fx::zero()),
    };
    let sky = renderer.eval_background_color(&tiny_up);
    assert_eq!((sky.x.bits, sky.y.bits, sky.z.bits), (32768, 45875, 65536));
    // Slightly more than 1/181 of a unit downward: the grid "unit" vector
    // has y < -1, so the blend clamps to the white endpoint.
    let tiny_down = Ray {
        origin: v(0, 0, 0),
        direction: Vector3::new(Fx::zero(), Fx::from_bits(-362), Fx::zero()),
    };
    assert_eq!(renderer.eval_background_color(&tiny_down), v(1, 1, 1));
    // Through the full evaluation, the result stays a legal color.
    let scene: Vec<Hittable> = vec![];
    let mut rng = Rng::from_seed(21);
    let color = renderer.eval_ray_color(&tiny_down, &scene, 1, &mut rng);
    for c in [color.x.bits, color.y.bits, color.z.bits] {
        assert!((0..=65536).contains(&c));
    }
    assert_eq!(color, v(1, 1, 1));
}

// With the bounce budget exhausted, every ray resolves to black, whatever
// the scene holds.
#[test]
fn depth_zero_returns_black() {
    let renderer = Renderer::new_with_settings(RendererSettings {
        antialiasing_on: false,
        antialiasing_samples: 1,
        max_depth: 0,
    });
    let scene = make_default_hittables();
    assert!(scene_ok(&scene));
    let mut rng = Rng::from_seed(1);
    for direction in [v(0, 0, -1), v(0, 1, 0), v(1, -1, 2)] {
        let ray = Ray { origin: v(0, 0, 0), direction };
        let color = renderer.eval_ray_color(&ray, &scene, 0, &mut rng);
        assert_eq!(color, v(0, 0, 0));
    }
}

// A ray that misses everything resolves to the background gradient.
#[test]
fn miss_returns_background() {
    let renderer = Renderer::new();
    let scene = make_default_hittables();
    assert!(scene_ok(&scene));
    let mut rng = Rng::from_seed(2);
    // Straight up from above the scene: no sphere is hit.
    let ray = Ray { origin: v(0, 5, 0), direction: v(0, 1, 0) };
    let color = renderer.eval_ray_color(&ray, &scene, 50, &mut rng);
    assert_eq!(color, renderer.eval_background_color(&ray));
}

// The default scene holds exactly the four documented spheres, in order:
// ground, glass left, metal right, matte center.
#[test]
fn default_scene_contents() {
    let scene = make_default_hittables();
    assert_eq!(scene.len(), 4);
    let ground = Sphere {
        origin: Vector3::new(Fx::zero(), Fx::from_ratio(-201, 2), Fx::from_int(-1)),
        radius: Fx::from_int(100),
        material: Some(Material::Lambertian(Lambertian::new(Vector3::new(
            Fx::from_ratio(8, 10),
            Fx::from_ratio(8, 10),
            Fx::zero(),
        )))),
    };
    assert_eq!(scene[0], Hittable::Sphere(ground));
    match &scene[1] {
        Hittable::Sphere(s) => {
            assert_eq!(s.origin, v(-1, 0, -1));
            assert_eq!(s.radius, Fx::from_ratio(1, 2));
            assert!(matches!(s.material, Some(Material::Dielectric(_))));
        }
    }
    match &scene[2] {
        Hittable::Sphere(s) => {
            assert_eq!(s.origin, v(1, 0, -1));
            assert!(matches!(s.material, Some(Material::Metal(_))));
        }
    }
    match &scene[3] {
        Hittable::Sphere(s) => {
            assert_eq!(s.origin, v(0, 0, -1));
            assert!(matches!(s.material, Some(Material::Lambertian(_))));
        }
    }
}

// The default scene is well-formed and a malformed one is rejected.
#[test]
fn scene_ok_rejects_flat_sphere() {
    let mut scene = make_default_hittables();
    assert!(scene_ok(&scene));
    scene.push(Hittable::Sphere(Sphere {
        origin: v(0, 0, 0),
        radius: Fx::zero(),
        material: Some(Material::Lambertian(Lambertian::new(v(1, 1, 1)))),
    }));
    assert!(!scene_ok(&scene));
    let mut no_material = make_default_hittables();
    no_material.push(Hittable::Sphere(Sphere {
        origin: v(0, 0, 0),
        radius: Fx::from_int(1),
        material: None,
    }));
    assert!(!scene_ok(&no_material));
}

// A full render fills a buffer of exactly width * height * 3 bytes and the
// reported size matches the camera's viewport.
#[test]
fn run_produces_full_size_buffer() {
    let renderer = Renderer::new_with_settings(RendererSettings {
        antialiasing_on: false,
        antialiasing_samples: 1,
        max_depth: 4,
    });
    let camera = Camera::new(16, 12);
    assert_eq!(camera.viewport.image_width(), 16);
    assert_eq!(camera.viewport.image_height(), 12);
    let scene = make_default_hittables();
    assert!(scene_ok(&scene));
    let mut rng = Rng::from_seed(7);
    let image = renderer.run(&camera, &scene, &mut rng);
    assert_eq!(image.size.width(), 16);
    assert_eq!(image.size.height(), 12);
    assert_eq!(image.data.len(), 16 * 12 * 3);
}

// Averaging a sample sum divides each channel by the count, and gamma-2
// correction takes the componentwise square root.
#[test]
fn average_and_gamma_correction_formula() {
    let sum = v(4, 1, 0);
    let corrected = average_and_gamma_correct(sum, 4);
    assert_eq!(corrected.x.bits, 65536);  // sqrt(4/4) = 1
    assert_eq!(corrected.y.bits, 32768);  // sqrt(1/4) = 1/2
    assert_eq!(corrected.z.bits, 0);
}

// Rendering a deterministic (background-only) pixel with one jittered
// sample converges to the many-sample average within a small tolerance.
#[test]
fn antialiasing_converges_on_deterministic_scene() {
    let camera = Camera::new(10, 10);
    let scene: Vec<Hittable> = vec![];
    let few = Renderer::new_with_settings(RendererSettings {
        antialiasing_on: true,
        antialiasing_samples: 1,
        max_depth: 4,
    });
    let many = Renderer::new_with_settings(RendererSettings {
        antialiasing_on: true,
        antialiasing_samples: 256,
        max_depth: 4,
    });
    let pixel = Vector2i::new(5, 5);
    let mut rng_few = Rng::from_seed(1234);
    let mut rng_many = Rng::from_seed(99);
    let one = few.eval_pixel_color(&camera, pixel, &scene, &mut rng_few);
    let avg = many.eval_pixel_color(&camera, pixel, &scene, &mut rng_many);
    let dr = (one.r as i32 - avg.r as i32).abs();
    let dg = (one.g as i32 - avg.g as i32).abs();
    let db = (one.b as i32 - avg.b as i32).abs();
    assert!(dr <= 10 && dg <= 10 && db <= 10, "diverged: {} {} {}", dr, dg, db);
}

// The same seed replays the exact same image.
#[test]
fn seeded_render_is_reproducible() {
    let renderer = Renderer::new_with_settings(RendererSettings {
        antialiasing_on: true,
        antialiasing_samples: 4,
        max_depth: 8,
    });
    let camera = Camera::new(20, 12);
    let scene = make_default_hittables();
    let mut rng_a = Rng::from_seed(77);
    let mut rng_b = Rng::from_seed(77);
    let image_a = renderer.run(&camera, &scene, &mut rng_a);
    let image_b = renderer.run(&camera, &scene, &mut rng_b);
    assert_eq!(image_a.data, image_b.data);
}
