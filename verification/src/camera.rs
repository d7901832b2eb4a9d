// The pinhole camera: an origin plus a viewport, turning (possibly
// fractional) pixel coordinates into world-space rays.

use vstd::prelude::*;

verus! {

use crate::fixed::{Fx, SCALE, fadd_v, fmul_v};
use crate::types::{Vector3, v3, vadd_v, vscale_v, Vector2i};
use crate::ray::Ray;
use crate::viewport::{
    Viewport,
    viewport_wf,
    int_fx,
    to_image_u_v,
    to_image_v_v,
    aspect_ratio_v,
    derived_height_v,
};
use crate::fixed::fdiv_v;

/// The focal length, about six tenths of a world unit; a tunable constant.
pub const FOCAL_LENGTH_BITS: i64 = 39322;

/// The ray a camera casts for the fractional pixel coordinate `(y, x)`:
/// from the camera origin along
/// `u * horizontal + v * vertical + front * focal_length`.
pub open spec fn camera_ray_v(c: Camera, image_y: int, image_x: int) -> Ray {
    let u = to_image_u_v(c.viewport, image_x);
    let v = to_image_v_v(c.viewport, image_y);
    let horizontal = v3(fmul_v(aspect_ratio_v(c.viewport), SCALE as int), 0, 0);
    let vertical = v3(0, SCALE as int, 0);
    let front = v3(0, 0, -(SCALE as int));
    let direction = vadd_v(
        vadd_v(vscale_v(horizontal, u), vscale_v(vertical, v)),
        vscale_v(front, FOCAL_LENGTH_BITS as int),
    );
    Ray { origin: c.origin, direction }
}

/// A pinhole camera looking down `-z`.
#[derive(Clone, Copy, PartialEq, Eq, Structural, Debug)]
pub struct Camera {
    pub origin: Vector3,
    pub viewport: Viewport,
}

impl Camera {
    /// A camera at the world origin whose viewport has the given pixel
    /// width, with the height re-derived from the two extents' ratio.
    /// The height may not exceed `SCALE` times the width, so the ratio stays
    /// on the grid.
    pub fn new(width: i32, height: i32) -> (c: Camera)
        requires
            1 <= width,
            1 <= height <= width * (SCALE as int),
        ensures
            c.origin == v3(0, 0, 0),
            c.viewport.width == width,
            viewport_wf(c.viewport),
            c.viewport.height as int == ({
                let d = derived_height_v(
                    fdiv_v(int_fx(width as int), int_fx(height as int)),
                    width as int,
                );
                if d <= i32::MAX as int {
                    d
                } else {
                    i32::MAX as int
                }
            }),
    {
        let aspect_ratio = Fx::from_int(width as i64).div(Fx::from_int(height as i64));
        proof {
            let s = SCALE as int;
            let w_s = int_fx(width as int);
            let h_s = int_fx(height as int);
            let num = w_s * s;
            // The ratio is positive: height <= width * SCALE makes the
            // numerator at least the denominator.
            vstd::arithmetic::div_mod::lemma_div_non_zero(num, h_s);
            vstd::arithmetic::div_mod::lemma_div_nonincreasing(num, h_s);
            assert(aspect_ratio@ == num / h_s);
        }
        let viewport = Viewport::new_by_width(aspect_ratio, width);
        proof {
            let s = SCALE as int;
            let w_s = int_fx(width as int);
            let h_s = int_fx(height as int);
            let num = w_s * s;
            let a = aspect_ratio@;
            // a * h_s <= num, and s <= h_s, so a * s <= num; dividing by a
            // then leaves at least SCALE, so the derived height is at least
            // one pixel.
            vstd::arithmetic::div_mod::lemma_fundamental_div_mod(num, h_s);
            vstd::arithmetic::div_mod::lemma_mod_bound(num, h_s);
            assert(h_s * a <= num);
            vstd::arithmetic::mul::lemma_mul_left_inequality(a, s, h_s);
            assert(a * s <= a * h_s);
            assert(a * h_s == h_s * a) by (nonlinear_arith);
            vstd::arithmetic::div_mod::lemma_div_is_ordered(a * s, num, a);
            vstd::arithmetic::div_mod::lemma_div_multiples_vanish(s, a);
            assert((a * s) / a == s);
            assert(num / a >= s);
            vstd::arithmetic::div_mod::lemma_div_nonincreasing(num, a);
            vstd::arithmetic::div_mod::lemma_div_is_ordered(s, num / a, s);
            assert(crate::viewport::derived_height_v(a, width as int) >= 1);
        }
        Camera { origin: Vector3::zeros(), viewport }
    }

    /// Move the camera origin by the given offset (interactive fly-through).
    pub fn fps_move(&mut self, wasd_vector: Vector3)
        ensures
            final(self).origin == vadd_v(old(self).origin, wasd_vector),
            final(self).viewport == old(self).viewport,
    {
        self.origin = self.origin.add(wasd_vector);
    }

    /// The ray through a whole pixel's corner; the pixel must lie inside
    /// the viewport.
    pub fn get_ray_from_image_xy(&self, xy: Vector2i) -> (r: Ray)
        requires
            viewport_wf(self.viewport),
            0 <= xy.x < self.viewport.width,
            0 <= xy.y < self.viewport.height,
        ensures
            r == camera_ray_v(*self, int_fx(xy.y as int), int_fx(xy.x as int)),
    {
        self.get_ray_from_image_yx(Fx::from_int(xy.y as i64), Fx::from_int(xy.x as i64))
    }

    /// The ray through a pixel jittered by up to half a pixel on each axis:
    /// the antialiasing sample generator.
    pub fn get_random_ray_from_image_xy(&self, xy: Vector2i, rng: &mut crate::rand_geom::Rng) -> (r:
        Ray)
        requires
            viewport_wf(self.viewport),
            0 <= xy.x < self.viewport.width,
            0 <= xy.y < self.viewport.height,
        ensures
            exists|jy: int, jx: int|
                {
                    &&& -(SCALE as int) / 2 <= jy < (SCALE as int) / 2
                    &&& -(SCALE as int) / 2 <= jx < (SCALE as int) / 2
                    &&& r == camera_ray_v(
                        *self,
                        fadd_v(int_fx(xy.y as int), jy),
                        fadd_v(int_fx(xy.x as int), jx),
                    )
                },
    {
        let jy = crate::rand_geom::random_jitter(rng);
        let jx = crate::rand_geom::random_jitter(rng);
        let y = Fx::from_int(xy.y as i64).add(jy);
        let x = Fx::from_int(xy.x as i64).add(jx);
        let r = self.get_ray_from_image_yx(y, x);
        proof {
            assert({
                &&& -(SCALE as int) / 2 <= jy@ < (SCALE as int) / 2
                &&& -(SCALE as int) / 2 <= jx@ < (SCALE as int) / 2
                &&& r == camera_ray_v(
                    *self,
                    fadd_v(int_fx(xy.y as int), jy@),
                    fadd_v(int_fx(xy.x as int), jx@),
                )
            });
        }
        r
    }

    /// The ray for a fractional pixel coordinate, row first (fractions
    /// support jittered sampling).
    pub fn get_ray_from_image_yx(&self, image_y: Fx, image_x: Fx) -> (r: Ray)
        requires
            viewport_wf(self.viewport),
        ensures
            r == camera_ray_v(*self, image_y@, image_x@),
    {
        let image_v = self.viewport.to_image_v(image_y);
        let image_u = self.viewport.to_image_u(image_x);
        let direction = self.viewport.horizontal().scale(image_u).add(
            self.viewport.vertical().scale(image_v),
        ).add(self.front().scale(self.focal_length()));
        Ray { origin: self.origin, direction }
    }

    /// The view direction: the camera looks down `-z`.
    pub fn front(&self) -> (r: Vector3)
        ensures
            r == v3(0, 0, -(SCALE as int)),
    {
        Vector3::new(Fx::zero(), Fx::zero(), Fx::from_bits(-65536))
    }

    /// The distance from the origin to the image plane.
    pub fn focal_length(&self) -> (r: Fx)
        ensures
            r@ == FOCAL_LENGTH_BITS as int,
    {
        Fx::from_bits(FOCAL_LENGTH_BITS)
    }
}

} // verus!
