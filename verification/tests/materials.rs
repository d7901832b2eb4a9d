// Material scattering behavior.

use raytracer::fixed::Fx;
use raytracer::material::{Dielectric, Lambertian, Material, Metal};
use raytracer::rand_geom::Rng;
use raytracer::ray::{HitPoint, Ray};
use raytracer::types::Vector3;

fn v(x: i64, y: i64, z: i64) -> Vector3 {
    Vector3::new(Fx::from_int(x), Fx::from_int(y), Fx::from_int(z))
}

fn upward_hit() -> HitPoint {
    HitPoint { position: v(0, 0, -1), normal: v(0, 1, 0), front_face: false }
}

// For any seed, a Lambertian scatter succeeds and its attenuation is the
// configured albedo exactly, independent of the geometry.
#[test]
fn lambertian_attenuation_equals_albedo_for_any_seed() {
    let albedo = Vector3::new(Fx::from_ratio(7, 10), Fx::from_ratio(3, 10), Fx::from_ratio(3, 10));
    let material = Lambertian::new(albedo);
    let ray = Ray { origin: v(0, 0, 0), direction: v(0, -1, 0) };
    for seed in [0u64, 1, 7, 42, 1234567, u64::MAX] {
        let mut rng = Rng::from_seed(seed);
        for _ in 0..16 {
            let (attenuation, scattered) =
                material.scatter(&ray, &upward_hit(), &mut rng).expect("never absorbs");
            assert_eq!(attenuation, albedo);
            assert_eq!(scattered.origin, v(0, 0, -1));
        }
    }
}

// With zero fuzz the metal reflection is the exact mirror image, and its
// magnitude equals the (normalized) incoming magnitude.
#[test]
fn metal_zero_fuzz_reflection_preserves_unit_length() {
    let albedo = Vector3::new(Fx::from_ratio(8, 10), Fx::from_ratio(6, 10), Fx::from_ratio(2, 10));
    let material = Metal::new(albedo, Fx::zero());
    let ray = Ray { origin: v(0, 1, 0), direction: v(0, -1, 0) };
    let mut rng = Rng::from_seed(3);
    let (attenuation, scattered) =
        material.scatter(&ray, &upward_hit(), &mut rng).expect("reflects away from surface");
    assert_eq!(attenuation, albedo);
    assert_eq!(scattered.direction, v(0, 1, 0));
    // The incoming direction is normalized before reflection, so both have
    // unit length.
    assert_eq!(ray.direction.normalize().length().bits, 65536);
    assert_eq!(scattered.direction.length().bits, 65536);
}

// A reflection that would point into the surface is absorbed.
#[test]
fn metal_absorbs_into_surface_reflection() {
    let albedo = Vector3::new(Fx::from_ratio(8, 10), Fx::from_ratio(6, 10), Fx::from_ratio(2, 10));
    let material = Metal::new(albedo, Fx::zero());
    // Incoming along the normal: the mirror image points back into the
    // surface, so dot(reflected, normal) < 0.
    let ray = Ray { origin: v(0, -1, 0), direction: v(0, 1, 0) };
    let mut rng = Rng::from_seed(5);
    assert!(material.scatter(&ray, &upward_hit(), &mut rng).is_none());
}

// A dielectric always transmits with no absorption; at normal incidence the
// ray passes straight through.
#[test]
fn dielectric_transmits_straight_through_at_normal_incidence() {
    let material = Dielectric::new(Fx::from_ratio(3, 2));
    let hit = HitPoint { position: v(0, 0, -1), normal: v(0, 0, 1), front_face: false };
    let ray = Ray { origin: v(0, 0, 0), direction: v(0, 0, -1) };
    let mut rng = Rng::from_seed(9);
    let (attenuation, scattered) = material.scatter(&ray, &hit, &mut rng).expect("always Some");
    assert_eq!(attenuation, v(1, 1, 1));
    assert_eq!(scattered.origin, v(0, 0, -1));
    assert_eq!(scattered.direction, v(0, 0, -1));
}

// On a front face the ratio flips to 1/index; at normal incidence the ray
// still passes straight through.
#[test]
fn dielectric_front_face_uses_inverted_ratio() {
    let material = Dielectric::new(Fx::from_ratio(3, 2));
    let hit = HitPoint { position: v(0, 0, -1), normal: v(0, 0, 1), front_face: true };
    let ray = Ray { origin: v(0, 0, 0), direction: v(0, 0, -1) };
    let mut rng = Rng::from_seed(13);
    let (attenuation, scattered) = material.scatter(&ray, &hit, &mut rng).expect("always Some");
    assert_eq!(attenuation, v(1, 1, 1));
    assert_eq!(scattered.direction, v(0, 0, -1));
}

// The enum dispatch reaches the variant's rule.
#[test]
fn material_enum_dispatches_by_variant() {
    let albedo = Vector3::new(Fx::from_ratio(1, 2), Fx::from_ratio(1, 2), Fx::from_ratio(1, 2));
    let lambertian = Material::Lambertian(Lambertian::new(albedo));
    let ray = Ray { origin: v(0, 0, 0), direction: v(0, -1, 0) };
    let mut rng = Rng::from_seed(11);
    let (attenuation, _) =
        lambertian.scatter(&ray, &upward_hit(), &mut rng).expect("lambertian never absorbs");
    assert_eq!(attenuation, albedo);
    assert!(lambertian.is_wf());
    let bad = Material::Lambertian(Lambertian::new(v(2, 0, 0)));
    assert!(!bad.is_wf());
}
