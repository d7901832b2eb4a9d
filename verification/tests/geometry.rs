// Ray/sphere intersection and the closest-hit scan.

use raytracer::fixed::{Fx, SAT_MAX};
use raytracer::hittable::{find_nearest_hit, Hittable};
use raytracer::material::{Lambertian, Material};
use raytracer::ray::Ray;
use raytracer::sphere::{hit_sphere, hit_sphere_t, Sphere};
use raytracer::types::Vector3;

fn v(x: i64, y: i64, z: i64) -> Vector3 {
    Vector3::new(Fx::from_int(x), Fx::from_int(y), Fx::from_int(z))
}

fn gray_material() -> Material {
    Material::Lambertian(Lambertian::new(Vector3::new(
        Fx::from_ratio(1, 2),
        Fx::from_ratio(1, 2),
        Fx::from_ratio(1, 2),
    )))
}

fn window() -> (Fx, Fx) {
    (Fx::from_ratio(1, 1000), Fx::from_bits(SAT_MAX))
}

// Sphere at (0,0,-1) with radius 1/2, ray from the origin straight down -z:
// hit at t = 1/2, position (0,0,-1/2), unit normal (0,0,1).
#[test]
fn sphere_intersection_is_exact() {
    let sphere = Sphere {
        origin: v(0, 0, -1),
        radius: Fx::from_ratio(1, 2),
        material: Some(gray_material()),
    };
    let ray = Ray { origin: v(0, 0, 0), direction: v(0, 0, -1) };
    let (t_min, t_max) = window();
    let (t, hit) = hit_sphere_t(&sphere, &ray, t_min, t_max).expect("must hit");
    assert_eq!(t.bits, 32768);
    assert_eq!(hit.position, Vector3::new(Fx::zero(), Fx::zero(), Fx::from_ratio(-1, 2)));
    assert_eq!(hit.normal, v(0, 0, 1));
    // normal . direction = -1 < 0, so under the renderer's sign convention
    // this is not flagged as a front face.
    assert!(!hit.front_face);
    // The record-only entry point agrees.
    let hit2 = hit_sphere(&sphere, &ray, t_min, t_max).expect("must hit");
    assert_eq!(hit2, hit);
}

// The same sphere misses a parallel, offset ray.
#[test]
fn sphere_miss_parallel_ray() {
    let sphere = Sphere {
        origin: v(0, 0, -1),
        radius: Fx::from_ratio(1, 2),
        material: Some(gray_material()),
    };
    let ray = Ray { origin: v(0, 0, 0), direction: v(1, 0, 0) };
    let (t_min, t_max) = window();
    assert!(hit_sphere(&sphere, &ray, t_min, t_max).is_none());
}

// A ray that starts inside the sphere leaves through the far root: the near
// root is behind t_min, so the larger root must be selected.
#[test]
fn sphere_hit_from_inside_uses_far_root() {
    let sphere = Sphere {
        origin: v(0, 0, 0),
        radius: Fx::from_int(1),
        material: Some(gray_material()),
    };
    let ray = Ray { origin: v(0, 0, 0), direction: v(0, 0, -1) };
    let (t_min, t_max) = window();
    let (t, hit) = hit_sphere_t(&sphere, &ray, t_min, t_max).expect("must hit");
    assert_eq!(t.bits, 65536);
    assert_eq!(hit.position, v(0, 0, -1));
    assert_eq!(hit.normal, v(0, 0, -1));
    // normal . direction = 1 > 0: a front face under this convention.
    assert!(hit.front_face);
}

// Degenerate geometry reports no hit instead of dividing by zero.
#[test]
fn degenerate_direction_and_radius_report_miss() {
    let sphere = Sphere {
        origin: v(0, 0, -1),
        radius: Fx::from_ratio(1, 2),
        material: Some(gray_material()),
    };
    let zero_dir = Ray { origin: v(0, 0, 0), direction: v(0, 0, 0) };
    let (t_min, t_max) = window();
    assert!(hit_sphere(&sphere, &zero_dir, t_min, t_max).is_none());
    let flat = Sphere { origin: v(0, 0, -1), radius: Fx::zero(), material: Some(gray_material()) };
    let ray = Ray { origin: v(0, 0, 0), direction: v(0, 0, -1) };
    assert!(hit_sphere(&flat, &ray, t_min, t_max).is_none());
}

// Two spheres on the same ray, one hit at t=2 and one at t=5: the scan
// reports the t=2 hit whichever order the scene lists them in.
#[test]
fn closest_hit_selection_ignores_scene_order() {
    let near = Sphere {
        origin: Vector3::new(Fx::zero(), Fx::zero(), Fx::from_ratio(-5, 2)),
        radius: Fx::from_ratio(1, 2),
        material: Some(gray_material()),
    };
    let far = Sphere {
        origin: Vector3::new(Fx::zero(), Fx::zero(), Fx::from_ratio(-11, 2)),
        radius: Fx::from_ratio(1, 2),
        material: Some(gray_material()),
    };
    let ray = Ray { origin: v(0, 0, 0), direction: v(0, 0, -1) };
    let (t_min, t_max) = window();

    let scene_a = vec![Hittable::Sphere(near), Hittable::Sphere(far)];
    let (i_a, t_a, hit_a) = find_nearest_hit(&scene_a, &ray, t_min, t_max).expect("must hit");
    assert_eq!(i_a, 0);
    assert_eq!(t_a.bits, 2 * 65536);

    let scene_b = vec![Hittable::Sphere(far), Hittable::Sphere(near)];
    let (i_b, t_b, hit_b) = find_nearest_hit(&scene_b, &ray, t_min, t_max).expect("must hit");
    assert_eq!(i_b, 1);
    assert_eq!(t_b.bits, 2 * 65536);

    assert_eq!(hit_a, hit_b);
}

// The method forms agree with the free function.
#[test]
fn intersection_methods_agree() {
    let sphere = Sphere {
        origin: v(0, 0, -1),
        radius: Fx::from_ratio(1, 2),
        material: Some(gray_material()),
    };
    let ray = Ray { origin: v(0, 0, 0), direction: v(0, 0, -1) };
    let (t_min, t_max) = window();
    let by_fn = hit_sphere(&sphere, &ray, t_min, t_max);
    assert_eq!(sphere.ray_intersaction(&ray, t_min, t_max), by_fn);
    let hittable = Hittable::Sphere(sphere);
    assert_eq!(hittable.ray_intersaction(&ray, t_min, t_max), by_fn);
    assert!(hittable.material().is_some());
    assert!(hittable.is_wf());
}

// An empty window or an empty scene reports no hit.
#[test]
fn nearest_hit_on_empty_scene_is_none() {
    let ray = Ray { origin: v(0, 0, 0), direction: v(0, 0, -1) };
    let (t_min, t_max) = window();
    let scene: Vec<Hittable> = vec![];
    assert!(find_nearest_hit(&scene, &ray, t_min, t_max).is_none());
}
