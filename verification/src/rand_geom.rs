// Random sampling: a seeded generator handle and the random directions the
// materials and the antialiasing jitter draw from it.
//
// The generator is passed explicitly wherever randomness is used, so a caller
// that needs a reproducible render can seed it.

use vstd::prelude::*;

verus! {

use crate::fixed::{Fx, SCALE};
use crate::types::{Vector3, normalize_v};

#[verifier::external_type_specification]
#[verifier::external_body]
pub struct ExStdRng(rand::rngs::StdRng);

/// Relies on rand's `SeedableRng::seed_from_u64` for `StdRng`: it builds a
/// deterministic generator from the seed. Nothing is assumed about the
/// stream it will produce.
#[verifier::external_body]
fn stdrng_from_seed(seed: u64) -> rand::rngs::StdRng {
    <rand::rngs::StdRng as rand::SeedableRng>::seed_from_u64(seed)
}

/// Relies on rand's `RngCore::next_u32` for `StdRng`. The result is a random
/// word: nothing is assumed about its value.
#[verifier::external_body]
fn stdrng_next_u32(rng: &mut rand::rngs::StdRng) -> u32 {
    rand::RngCore::next_u32(rng)
}

/// A seeded random generator handle.
pub struct Rng {
    inner: rand::rngs::StdRng,
}

impl Rng {
    /// A generator with the given seed; the same seed replays the same
    /// sample stream within one build.
    pub fn from_seed(seed: u64) -> Rng {
        Rng { inner: stdrng_from_seed(seed) }
    }

    /// The next raw 32-bit sample.
    pub fn next_u32(&mut self) -> u32 {
        stdrng_next_u32(&mut self.inner)
    }
}

/// A scalar drawn uniformly from the grid points of `[-1, 1)`.
pub fn random_symmetric_unit(rng: &mut Rng) -> (r: Fx)
    ensures
        -(SCALE as int) <= r@ < SCALE as int,
{
    let raw: u32 = rng.next_u32();
    Fx::from_bits((raw % 131072) as i64 - 65536)
}

/// A jitter offset drawn uniformly from the grid points of `[-1/2, 1/2)`.
pub fn random_jitter(rng: &mut Rng) -> (r: Fx)
    ensures
        -(SCALE as int) / 2 <= r@ < (SCALE as int) / 2,
{
    let raw: u32 = rng.next_u32();
    Fx::from_bits((raw % 65536) as i64 - 32768)
}

/// What `random_in_unit_sphere` can hand back: the normalization of some
/// vector whose components were drawn from `[-1, 1)`.
pub open spec fn unit_sample_v(r: Vector3) -> bool {
    exists|v: Vector3|
        {
            &&& -(SCALE as int) <= v.x@ < SCALE as int
            &&& -(SCALE as int) <= v.y@ < SCALE as int
            &&& -(SCALE as int) <= v.z@ < SCALE as int
            &&& r == normalize_v(v)
        }
}

/// A random direction of (approximately) unit length: each axis is sampled
/// uniformly from `[-1, 1)` and the result is normalized.
pub fn random_in_unit_sphere(rng: &mut Rng) -> (r: Vector3)
    ensures
        unit_sample_v(r),
{
    let x = random_symmetric_unit(rng);
    let y = random_symmetric_unit(rng);
    let z = random_symmetric_unit(rng);
    let v = Vector3::new(x, y, z);
    let r = v.normalize();
    proof {
        assert(-(SCALE as int) <= v.x@ < SCALE as int && -(SCALE as int) <= v.y@ < SCALE as int
            && -(SCALE as int) <= v.z@ < SCALE as int && r == normalize_v(v));
    }
    r
}

} // verus!
