// The viewport: an image resolution plus the world-space extents of the
// image plane. The viewport height is fixed at one world unit; the width
// follows the aspect ratio.

use vstd::prelude::*;

verus! {

use crate::fixed::{Fx, SCALE, sat, fsub_v, fneg_v, fmul_v, fdiv_v};
use crate::types::{Vector3, v3};

/// The integer `i` on the fixed-point grid (saturating).
pub open spec fn int_fx(i: int) -> int {
    sat(i * (SCALE as int))
}

/// The pixel height derived from a width and an aspect ratio: the width
/// divided by the ratio, truncated to whole pixels.
pub open spec fn derived_height_v(aspect: int, width: int) -> int {
    fdiv_v(int_fx(width), aspect) / (SCALE as int)
}

/// Map a pixel column `x` in `[0, width)` to `u` in `[-1/2, 1/2)`.
pub open spec fn to_image_u_v(vp: Viewport, x: int) -> int {
    fsub_v(fdiv_v(x, int_fx(vp.width as int)), (SCALE as int) / 2)
}

/// Map a pixel row `y` in `[0, height)` to `v` in `(-1/2, 1/2]`, row zero on
/// top.
pub open spec fn to_image_v_v(vp: Viewport, y: int) -> int {
    fneg_v(fsub_v(fdiv_v(y, int_fx(vp.height as int)), (SCALE as int) / 2))
}

/// The aspect ratio `width / height` on the grid.
pub open spec fn aspect_ratio_v(vp: Viewport) -> int {
    fdiv_v(int_fx(vp.width as int), int_fx(vp.height as int))
}

/// A render target resolution with its world-space image plane.
#[derive(Clone, Copy, PartialEq, Eq, Structural, Debug)]
pub struct Viewport {
    pub width: i32,
    pub height: i32,
}

/// A usable viewport has at least one pixel in each direction.
pub open spec fn viewport_wf(vp: Viewport) -> bool {
    vp.width >= 1 && vp.height >= 1
}

impl Viewport {
    /// Map a fractional pixel row to the vertical image coordinate.
    pub fn to_image_v(&self, image_y: Fx) -> (r: Fx)
        requires
            self.height >= 1,
        ensures
            r@ == to_image_v_v(*self, image_y@),
    {
        let h = Fx::from_int(self.height as i64);
        image_y.div(h).sub(Fx::from_bits(32768)).neg()
    }

    /// Map a fractional pixel column to the horizontal image coordinate.
    pub fn to_image_u(&self, image_x: Fx) -> (r: Fx)
        requires
            self.width >= 1,
        ensures
            r@ == to_image_u_v(*self, image_x@),
    {
        let w = Fx::from_int(self.width as i64);
        image_x.div(w).sub(Fx::from_bits(32768))
    }

    /// Pixel columns.
    pub fn image_width(&self) -> (r: i32)
        ensures
            r == self.width,
    {
        self.width
    }

    /// Pixel rows.
    pub fn image_height(&self) -> (r: i32)
        ensures
            r == self.height,
    {
        self.height
    }

    /// The aspect ratio `width / height`.
    pub fn aspect_ratio(&self) -> (r: Fx)
        requires
            self.height >= 1,
        ensures
            r@ == aspect_ratio_v(*self),
    {
        let w = Fx::from_int(self.width as i64);
        let h = Fx::from_int(self.height as i64);
        w.div(h)
    }

    /// The world-space height of the image plane: one unit.
    pub fn viewport_height(&self) -> (r: Fx)
        ensures
            r@ == SCALE as int,
    {
        Fx::one()
    }

    /// The world-space width of the image plane: aspect ratio times height.
    pub fn viewport_width(&self) -> (r: Fx)
        requires
            self.height >= 1,
        ensures
            r@ == fmul_v(aspect_ratio_v(*self), SCALE as int),
    {
        self.aspect_ratio().mul(self.viewport_height())
    }

    /// The horizontal extent vector of the image plane.
    pub fn horizontal(&self) -> (r: Vector3)
        requires
            self.height >= 1,
        ensures
            r == v3(fmul_v(aspect_ratio_v(*self), SCALE as int), 0, 0),
    {
        Vector3::new(self.viewport_width(), Fx::zero(), Fx::zero())
    }

    /// The vertical extent vector of the image plane.
    pub fn vertical(&self) -> (r: Vector3)
        ensures
            r == v3(0, SCALE as int, 0),
    {
        Vector3::new(Fx::zero(), self.viewport_height(), Fx::zero())
    }

    /// A viewport of the given width whose height is derived from the
    /// aspect ratio (truncated to whole pixels, capped at the pixel type's
    /// range).
    pub fn new_by_width(aspect_ratio: Fx, width: i32) -> (vp: Viewport)
        requires
            aspect_ratio@ > 0,
            width >= 0,
        ensures
            vp.width == width,
            vp.height as int == (if derived_height_v(aspect_ratio@, width as int) <= i32::MAX
                as int {
                derived_height_v(aspect_ratio@, width as int)
            } else {
                i32::MAX as int
            }),
    {
        let w = Fx::from_int(width as i64);
        let q = w.div(aspect_ratio);
        proof {
            assert(q@ >= 0) by {
                vstd::arithmetic::div_mod::lemma_div_pos_is_pos(
                    sat(width as int * (SCALE as int)) * (SCALE as int),
                    aspect_ratio@,
                );
            }
            assert(q@ / (SCALE as int) >= 0) by {
                vstd::arithmetic::div_mod::lemma_div_pos_is_pos(q@, SCALE as int);
            }
        }
        let h_whole: u64 = (q.bits as u64) / 65536;
        let image_height: i32 = if h_whole > 0x7fff_ffff {
            0x7fff_ffff
        } else {
            h_whole as i32
        };
        Viewport { width, height: image_height }
    }
}

} // verus!
