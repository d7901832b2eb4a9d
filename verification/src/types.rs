// Shared value types: 3-component fixed-point vectors (positions,
// directions and linear colors), 8-bit colors, and 2-D sizes.

use vstd::prelude::*;

verus! {

use crate::fixed::{Fx, SCALE, fadd_v, fsub_v, fneg_v, fmul_v, fdiv_v, fsqrt_v, clamp01_v};

/// A vector built from three mantissas (each already in range).
pub open spec fn v3(x: int, y: int, z: int) -> Vector3 {
    Vector3 { x: Fx { bits: x as i64 }, y: Fx { bits: y as i64 }, z: Fx { bits: z as i64 } }
}

/// Componentwise sum.
pub open spec fn vadd_v(a: Vector3, b: Vector3) -> Vector3 {
    v3(fadd_v(a.x@, b.x@), fadd_v(a.y@, b.y@), fadd_v(a.z@, b.z@))
}

/// Componentwise difference.
pub open spec fn vsub_v(a: Vector3, b: Vector3) -> Vector3 {
    v3(fsub_v(a.x@, b.x@), fsub_v(a.y@, b.y@), fsub_v(a.z@, b.z@))
}

/// Componentwise negation.
pub open spec fn vneg_v(a: Vector3) -> Vector3 {
    v3(fneg_v(a.x@), fneg_v(a.y@), fneg_v(a.z@))
}

/// Every component scaled by `t`.
pub open spec fn vscale_v(a: Vector3, t: int) -> Vector3 {
    v3(fmul_v(a.x@, t), fmul_v(a.y@, t), fmul_v(a.z@, t))
}

/// Componentwise product (color attenuation).
pub open spec fn vmul_v(a: Vector3, b: Vector3) -> Vector3 {
    v3(fmul_v(a.x@, b.x@), fmul_v(a.y@, b.y@), fmul_v(a.z@, b.z@))
}

/// Dot product, accumulated left to right.
pub open spec fn dot_v(a: Vector3, b: Vector3) -> int {
    fadd_v(fadd_v(fmul_v(a.x@, b.x@), fmul_v(a.y@, b.y@)), fmul_v(a.z@, b.z@))
}

/// Length: the square root of the dot product with itself.
pub open spec fn length_v(a: Vector3) -> int {
    fsqrt_v(dot_v(a, a))
}

/// Normalization; the zero-length case maps to the zero vector instead of
/// dividing by zero.
pub open spec fn normalize_v(a: Vector3) -> Vector3 {
    let len = length_v(a);
    if len <= 0 {
        v3(0, 0, 0)
    } else {
        v3(fdiv_v(a.x@, len), fdiv_v(a.y@, len), fdiv_v(a.z@, len))
    }
}

/// Componentwise square root (gamma-2 correction of a linear color).
pub open spec fn vsqrt_v(a: Vector3) -> Vector3 {
    v3(fsqrt_v(a.x@), fsqrt_v(a.y@), fsqrt_v(a.z@))
}

/// A linear `[0, 1]` channel quantized to 8 bits: clamp, scale to 255, floor.
pub open spec fn to_byte_v(c: int) -> int {
    (clamp01_v(c) * 255) / (SCALE as int)
}

/// An 8-bit channel mapped back to the linear `[0, 1]` grid.
pub open spec fn from_byte_v(c: int) -> int {
    (c * (SCALE as int)) / 255
}

/// A 3-component fixed-point vector, used for positions, directions and
/// linear-space colors alike.
#[derive(Clone, Copy, PartialEq, Eq, Structural, Debug)]
pub struct Vector3 {
    pub x: Fx,
    pub y: Fx,
    pub z: Fx,
}

impl Vector3 {
    /// The vector with the given components.
    pub fn new(x: Fx, y: Fx, z: Fx) -> (r: Vector3)
        ensures
            r == (Vector3 { x, y, z }),
    {
        Vector3 { x, y, z }
    }

    /// The zero vector.
    pub fn zeros() -> (r: Vector3)
        ensures
            r == v3(0, 0, 0),
    {
        Vector3 { x: Fx { bits: 0 }, y: Fx { bits: 0 }, z: Fx { bits: 0 } }
    }

    /// Componentwise sum.
    pub fn add(self, o: Vector3) -> (r: Vector3)
        ensures
            r == vadd_v(self, o),
    {
        Vector3 { x: self.x.add(o.x), y: self.y.add(o.y), z: self.z.add(o.z) }
    }

    /// Componentwise difference.
    pub fn sub(self, o: Vector3) -> (r: Vector3)
        ensures
            r == vsub_v(self, o),
    {
        Vector3 { x: self.x.sub(o.x), y: self.y.sub(o.y), z: self.z.sub(o.z) }
    }

    /// Componentwise negation.
    pub fn neg(self) -> (r: Vector3)
        ensures
            r == vneg_v(self),
    {
        Vector3 { x: self.x.neg(), y: self.y.neg(), z: self.z.neg() }
    }

    /// Every component scaled by `t`.
    pub fn scale(self, t: Fx) -> (r: Vector3)
        ensures
            r == vscale_v(self, t@),
    {
        Vector3 { x: self.x.mul(t), y: self.y.mul(t), z: self.z.mul(t) }
    }

    /// Componentwise product (color attenuation).
    pub fn mul_comp(self, o: Vector3) -> (r: Vector3)
        ensures
            r == vmul_v(self, o),
    {
        Vector3 { x: self.x.mul(o.x), y: self.y.mul(o.y), z: self.z.mul(o.z) }
    }

    /// Dot product.
    pub fn dot(self, o: Vector3) -> (r: Fx)
        ensures
            r@ == dot_v(self, o),
    {
        self.x.mul(o.x).add(self.y.mul(o.y)).add(self.z.mul(o.z))
    }

    /// Squared length.
    pub fn length_squared(self) -> (r: Fx)
        ensures
            r@ == dot_v(self, self),
    {
        self.dot(self)
    }

    /// Length.
    pub fn length(self) -> (r: Fx)
        ensures
            r@ == length_v(self),
    {
        self.length_squared().sqrt()
    }

    /// The vector scaled to unit length; the zero vector stays zero.
    pub fn normalize(self) -> (r: Vector3)
        ensures
            r == normalize_v(self),
    {
        let len = self.length();
        if len.le(Fx::zero()) {
            Vector3::zeros()
        } else {
            Vector3 { x: self.x.div(len), y: self.y.div(len), z: self.z.div(len) }
        }
    }
}

/// Componentwise square root, written as an extension trait so callers can
/// apply it to a color value in place.
pub trait PointwiseSqrtExt: Sized {
    fn pointwise_sqrt(&self) -> Self;
}

impl PointwiseSqrtExt for Vector3 {
    fn pointwise_sqrt(&self) -> (r: Vector3)
        ensures
            r == vsqrt_v(*self),
    {
        Vector3 { x: self.x.sqrt(), y: self.y.sqrt(), z: self.z.sqrt() }
    }
}

/// An 8-bit-per-channel color.
#[derive(Clone, Copy, PartialEq, Eq, Structural, Debug)]
pub struct Rgb8 {
    pub r: u8,
    pub g: u8,
    pub b: u8,
}

impl Rgb8 {
    /// The color with the given channels.
    pub fn new(r: u8, g: u8, b: u8) -> (c: Rgb8)
        ensures
            c == (Rgb8 { r, g, b }),
    {
        Rgb8 { r, g, b }
    }
}

/// Quantize one linear channel to 8 bits: clamp into `[0, 1]`, scale by 255,
/// truncate. Clamping first keeps over-bright channels from wrapping.
fn channel_to_byte(c: Fx) -> (r: u8)
    ensures
        r as int == to_byte_v(c@),
{
    let cl = c.clamp01();
    ((cl.bits as u64 * 255) / 65536) as u8
}

/// A linear color quantized to 8 bits per channel.
pub fn vector3f_to_rgb8(v: Vector3) -> (c: Rgb8)
    ensures
        c.r as int == to_byte_v(v.x@),
        c.g as int == to_byte_v(v.y@),
        c.b as int == to_byte_v(v.z@),
{
    Rgb8 { r: channel_to_byte(v.x), g: channel_to_byte(v.y), b: channel_to_byte(v.z) }
}

/// An 8-bit color mapped back to a linear color vector.
pub fn rgb8_to_vector3f(rgb: Rgb8) -> (v: Vector3)
    ensures
        v.x@ == from_byte_v(rgb.r as int),
        v.y@ == from_byte_v(rgb.g as int),
        v.z@ == from_byte_v(rgb.b as int),
{
    Vector3 {
        x: Fx { bits: ((rgb.r as u64 * 65536) / 255) as i64 },
        y: Fx { bits: ((rgb.g as u64 * 65536) / 255) as i64 },
        z: Fx { bits: ((rgb.b as u64 * 65536) / 255) as i64 },
    }
}

/// A color scaled by a scalar, through the linear grid and back.
pub fn scale_rgb8(color: Rgb8, scale: Fx) -> (c: Rgb8)
    ensures
        ({
            let lin = rgb8_lin_v(color);
            c.r as int == to_byte_v(fmul_v(lin.x@, scale@)) && c.g as int == to_byte_v(
                fmul_v(lin.y@, scale@),
            ) && c.b as int == to_byte_v(fmul_v(lin.z@, scale@))
        }),
{
    vector3f_to_rgb8(rgb8_to_vector3f(color).scale(scale))
}

/// The linear color a stored 8-bit color denotes.
pub open spec fn rgb8_lin_v(c: Rgb8) -> Vector3 {
    v3(from_byte_v(c.r as int), from_byte_v(c.g as int), from_byte_v(c.b as int))
}

/// A unit normal displayed as a color: each component mapped from `[-1, 1]`
/// to `[0, 1]`, then quantized.
pub fn normal3f_to_rgb8(v: Vector3) -> (c: Rgb8)
    ensures
        c.r as int == to_byte_v(fadd_v(fdiv_v(v.x@, 2 * SCALE as int), (SCALE as int) / 2)),
        c.g as int == to_byte_v(fadd_v(fdiv_v(v.y@, 2 * SCALE as int), (SCALE as int) / 2)),
        c.b as int == to_byte_v(fadd_v(fdiv_v(v.z@, 2 * SCALE as int), (SCALE as int) / 2)),
{
    let two = Fx::from_bits(131072);
    let half = Fx::from_bits(32768);
    Rgb8 {
        r: channel_to_byte(v.x.div(two).add(half)),
        g: channel_to_byte(v.y.div(two).add(half)),
        b: channel_to_byte(v.z.div(two).add(half)),
    }
}

/// A rectangular size in whole pixels.
#[derive(Clone, Copy, PartialEq, Eq, Structural, Debug)]
pub struct Size2<T> {
    pub w: T,
    pub h: T,
}

impl<T: Copy> Size2<T> {
    /// The size with the given extents (height first, as rows come first).
    pub fn new(height: T, width: T) -> (s: Size2<T>)
        ensures
            s.w == width,
            s.h == height,
    {
        Size2 { w: width, h: height }
    }

    /// Horizontal extent.
    pub fn width(&self) -> (r: T)
        ensures
            r == self.w,
    {
        self.w
    }

    /// Vertical extent.
    pub fn height(&self) -> (r: T)
        ensures
            r == self.h,
    {
        self.h
    }
}

/// Sizes and pixel positions measured in `i32`, as the image types use.
pub type Size2i = Size2<i32>;

/// An integer pixel position (`x` column, `y` row).
#[derive(Clone, Copy, PartialEq, Eq, Structural, Debug)]
pub struct Vector2i {
    pub x: i32,
    pub y: i32,
}

impl Vector2i {
    /// The position with the given coordinates.
    pub fn new(x: i32, y: i32) -> (r: Vector2i)
        ensures
            r == (Vector2i { x, y }),
    {
        Vector2i { x, y }
    }
}

} // verus!
