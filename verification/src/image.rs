// The pixel buffer and its layout contract.
//
// The buffer is planar: all red bytes in row-major order, then all green
// bytes, then all blue bytes. The byte for channel `c` of the pixel at
// `(x, y)` sits at index `c * width * height + y * width + x`. Any
// downstream image writer reads exactly this layout.

use vstd::prelude::*;

verus! {

use crate::types::{Size2i, Vector2i, Rgb8};

/// The buffer index of channel `c` for the pixel at `(x, y)`.
pub open spec fn pixel_byte_index(width: int, height: int, x: int, y: int, c: int) -> int {
    c * (width * height) + y * width + x
}

/// A size the buffer arithmetic can handle: non-negative extents whose
/// three-channel byte count fits an index.
pub open spec fn size_wf(size: Size2i) -> bool {
    &&& size.w >= 0
    &&& size.h >= 0
    &&& 3 * (size.w as int) * (size.h as int) <= usize::MAX as int
}

/// A well-formed image: its buffer holds exactly three bytes per pixel.
pub open spec fn image_wf(img: Image) -> bool {
    &&& size_wf(img.size)
    &&& img.data@.len() == 3 * (img.size.w as int) * (img.size.h as int)
}

/// The three plane indices of one pixel are in range and sit exactly one
/// plane (`w * h` bytes) apart.
pub proof fn lemma_pixel_byte_index_bounds(w: int, h: int, x: int, y: int)
    requires
        0 <= x < w,
        0 <= y < h,
    ensures
        0 <= pixel_byte_index(w, h, x, y, 0) < w * h,
        pixel_byte_index(w, h, x, y, 1) == w * h + pixel_byte_index(w, h, x, y, 0),
        pixel_byte_index(w, h, x, y, 2) == 2 * (w * h) + pixel_byte_index(w, h, x, y, 0),
{
    assert(0 <= y * w + x < w * h) by (nonlinear_arith)
        requires
            0 <= x < w,
            0 <= y < h,
    ;
    assert(0 * (w * h) + y * w + x == y * w + x) by (nonlinear_arith);
    assert(1 * (w * h) + y * w + x == w * h + (0 * (w * h) + y * w + x)) by (nonlinear_arith);
    assert(2 * (w * h) + y * w + x == 2 * (w * h) + (0 * (w * h) + y * w + x)) by (nonlinear_arith);
}

/// Distinct pixel/channel pairs use distinct buffer indices, so writing one
/// pixel leaves every other pixel's bytes alone.
pub proof fn lemma_pixel_byte_index_injective(
    w: int,
    h: int,
    x1: int,
    y1: int,
    c1: int,
    x2: int,
    y2: int,
    c2: int,
)
    requires
        0 <= x1 < w,
        0 <= y1 < h,
        0 <= c1 < 3,
        0 <= x2 < w,
        0 <= y2 < h,
        0 <= c2 < 3,
        !(x1 == x2 && y1 == y2 && c1 == c2),
    ensures
        pixel_byte_index(w, h, x1, y1, c1) != pixel_byte_index(w, h, x2, y2, c2),
{
    let b1 = y1 * w + x1;
    let b2 = y2 * w + x2;
    assert(0 <= b1 < w * h && 0 <= b2 < w * h) by (nonlinear_arith)
        requires
            0 <= x1 < w,
            0 <= y1 < h,
            0 <= x2 < w,
            0 <= y2 < h,
            b1 == y1 * w + x1,
            b2 == y2 * w + x2,
    ;
    if x1 != x2 || y1 != y2 {
        assert(b1 != b2) by (nonlinear_arith)
            requires
                0 <= x1 < w,
                0 <= y1 < h,
                0 <= x2 < w,
                0 <= y2 < h,
                b1 == y1 * w + x1,
                b2 == y2 * w + x2,
                !(x1 == x2 && y1 == y2),
        ;
    }
    assert(c1 * (w * h) + b1 != c2 * (w * h) + b2) by (nonlinear_arith)
        requires
            0 <= b1 < w * h,
            0 <= b2 < w * h,
            0 <= c1 < 3,
            0 <= c2 < 3,
            c1 != c2 || b1 != b2,
    ;
}

/// An 8-bit RGB image in planar channel layout.
#[derive(Debug)]
pub struct Image {
    pub size: Size2i,
    pub data: Vec<u8>,
}

impl Image {
    /// A black image of the given size.
    pub fn new(size: Size2i) -> (img: Image)
        requires
            size_wf(size),
        ensures
            image_wf(img),
            img.size == size,
            forall|i: int| 0 <= i < img.data@.len() ==> img.data@[i] == 0u8,
    {
        proof {
            assert((size.w as int) * (size.h as int) * 3 == 3 * (size.w as int) * (size.h as int))
                by (nonlinear_arith);
            assert((size.w as int) * (size.h as int) >= 0) by (nonlinear_arith)
                requires
                    size.w >= 0,
                    size.h >= 0,
            ;
        }
        let data_size: usize = (size.width() as usize) * (size.height() as usize) * 3;
        let mut data = Vec::<u8>::new();
        while data.len() < data_size
            invariant
                data@.len() <= data_size,
                forall|i: int| 0 <= i < data@.len() ==> data@[i] == 0u8,
            decreases data_size - data@.len(),
        {
            data.push(0);
        }
        Image::new_with_data(size, data)
    }

    /// An image over an existing buffer, which must already have the
    /// planar three-bytes-per-pixel length.
    pub fn new_with_data(size: Size2i, data: Vec<u8>) -> (img: Image)
        requires
            size_wf(size),
            data@.len() == 3 * (size.w as int) * (size.h as int),
        ensures
            img.size == size,
            img.data == data,
            image_wf(img),
    {
        Image { size, data }
    }

    /// Store one pixel's color: each channel byte goes to its plane, at
    /// `c * width * height + y * width + x`; no other byte changes.
    pub fn set_pixel(&mut self, position: Vector2i, rgb: Rgb8)
        requires
            image_wf(*old(self)),
            0 <= position.x < old(self).size.w,
            0 <= position.y < old(self).size.h,
        ensures
            image_wf(*final(self)),
            final(self).size == old(self).size,
            final(self).data@ == old(self).data@.update(
                pixel_byte_index(
                    old(self).size.w as int,
                    old(self).size.h as int,
                    position.x as int,
                    position.y as int,
                    0,
                ),
                rgb.r,
            ).update(
                pixel_byte_index(
                    old(self).size.w as int,
                    old(self).size.h as int,
                    position.x as int,
                    position.y as int,
                    1,
                ),
                rgb.g,
            ).update(
                pixel_byte_index(
                    old(self).size.w as int,
                    old(self).size.h as int,
                    position.x as int,
                    position.y as int,
                    2,
                ),
                rgb.b,
            ),
    {
        let w = self.size.width() as usize;
        let h = self.size.height() as usize;
        proof {
            let wi = old(self).size.w as int;
            let hi = old(self).size.h as int;
            let xi = position.x as int;
            let yi = position.y as int;
            // y * w + x stays below w * h, so all three plane indices are in
            // range of the 3 * w * h buffer.
            assert(yi * wi + xi < wi * hi) by (nonlinear_arith)
                requires
                    0 <= xi < wi,
                    0 <= yi < hi,
            ;
            assert(yi * wi >= 0) by (nonlinear_arith)
                requires
                    yi >= 0,
                    wi >= 0,
            ;
            assert(3 * wi * hi == wi * hi + (wi * hi + wi * hi)) by (nonlinear_arith);
            assert(wi * hi >= 0) by (nonlinear_arith)
                requires
                    wi >= 0,
                    hi >= 0,
            ;
        }
        let image_size: usize = w * h;
        let pixel_index: usize = (position.y as usize) * w + (position.x as usize);
        self.data[pixel_index] = rgb.r;
        self.data[image_size + pixel_index] = rgb.g;
        self.data[image_size + image_size + pixel_index] = rgb.b;
        proof {
            let wi = old(self).size.w as int;
            let hi = old(self).size.h as int;
            let xi = position.x as int;
            let yi = position.y as int;
            assert(pixel_byte_index(wi, hi, xi, yi, 0) == yi * wi + xi);
            assert(pixel_byte_index(wi, hi, xi, yi, 1) == wi * hi + yi * wi + xi) by (
            nonlinear_arith);
            assert(pixel_byte_index(wi, hi, xi, yi, 2) == 2 * (wi * hi) + yi * wi + xi) by (
            nonlinear_arith);
        }
    }
}

} // verus!
