// Plain-text PPM encoding of a planar pixel buffer.
//
// The encoder produces the exact byte sequence of a `P3` image: the header
// `P3\n{width} {height}\n255\n`, then one `r g b\n` line per pixel in
// row-major order, each channel in decimal. Writing those bytes anywhere is
// the caller's concern.

use vstd::prelude::*;

verus! {

/// The decimal digits of `n` (for `n >= 0`), most significant first, as
/// ASCII bytes.
pub open spec fn dec_v(n: int) -> Seq<u8>
    decreases n,
{
    if n < 10 {
        seq![(48 + n) as u8]
    } else {
        dec_v(n / 10).push((48 + n % 10) as u8)
    }
}

/// The header `P3\n{width} {height}\n255\n`.
pub open spec fn ppm_header_v(w: int, h: int) -> Seq<u8> {
    seq![80u8, 51u8, 10u8] + dec_v(w) + seq![32u8] + dec_v(h) + seq![10u8] + dec_v(255) + seq![
        10u8,
    ]
}

/// One pixel's line `r g b\n`, channels read from the three planes of a
/// buffer with `wh` pixels.
pub open spec fn pixel_line_v(data: Seq<u8>, wh: int, i: int) -> Seq<u8> {
    dec_v(data[i] as int) + seq![32u8] + dec_v(data[wh + i] as int) + seq![32u8] + dec_v(
        data[2 * wh + i] as int,
    ) + seq![10u8]
}

/// The concatenated lines of the first `count` pixels.
pub open spec fn pixel_lines_v(data: Seq<u8>, wh: int, count: int) -> Seq<u8>
    decreases count,
{
    if count <= 0 {
        Seq::empty()
    } else {
        pixel_lines_v(data, wh, count - 1) + pixel_line_v(data, wh, count - 1)
    }
}

/// The full text image for a planar `w` by `h` buffer.
pub open spec fn ppm_v(data: Seq<u8>, w: int, h: int) -> Seq<u8> {
    ppm_header_v(w, h) + pixel_lines_v(data, w * h, w * h)
}

/// Append the decimal digits of `n` to `out`.
fn push_dec(out: &mut Vec<u8>, n: u32)
    ensures
        final(out)@ == old(out)@ + dec_v(n as int),
    decreases n,
{
    if n < 10 {
        out.push(48 + (n as u8));
    } else {
        push_dec(out, n / 10);
        out.push(48 + ((n % 10) as u8));
    }
    proof {
        assert(out@ =~= old(out)@ + dec_v(n as int));
    }
}

/// Encode a planar pixel buffer as a plain-text PPM image.
pub fn ppm_encode(buffer: &Vec<u8>, width: i32, height: i32) -> (out: Vec<u8>)
    requires
        width >= 0,
        height >= 0,
        buffer@.len() == 3 * (width as int) * (height as int),
    ensures
        out@ == ppm_v(buffer@, width as int, height as int),
{
    proof {
        assert((width as int) * (height as int) >= 0) by (nonlinear_arith)
            requires
                width >= 0,
                height >= 0,
        ;
        assert(3 * (width as int) * (height as int) == (width as int) * (height as int) + ((width
            as int) * (height as int) + (width as int) * (height as int))) by (nonlinear_arith);
    }
    let mut out: Vec<u8> = Vec::new();
    out.push(80);
    out.push(51);
    out.push(10);
    push_dec(&mut out, width as u32);
    out.push(32);
    push_dec(&mut out, height as u32);
    out.push(10);
    push_dec(&mut out, 255);
    out.push(10);
    proof {
        assert(out@ =~= ppm_header_v(width as int, height as int));
    }
    let total = buffer.len();
    let wh: usize = (width as usize) * (height as usize);
    let mut i: usize = 0;
    while i < wh
        invariant
            wh == (width as int) * (height as int),
            total == buffer@.len(),
            buffer@.len() == 3 * (width as int) * (height as int),
            3 * (width as int) * (height as int) == wh + (wh + wh),
            i <= wh,
            out@ == ppm_header_v(width as int, height as int) + pixel_lines_v(
                buffer@,
                wh as int,
                i as int,
            ),
        decreases wh - i,
    {
        let red = buffer[i];
        let green = buffer[wh + i];
        let blue = buffer[wh + wh + i];
        push_dec(&mut out, red as u32);
        out.push(32);
        push_dec(&mut out, green as u32);
        out.push(32);
        push_dec(&mut out, blue as u32);
        out.push(10);
        proof {
            assert(out@ =~= ppm_header_v(width as int, height as int) + pixel_lines_v(
                buffer@,
                wh as int,
                i as int + 1,
            ));
        }
        i += 1;
    }
    proof {
        assert(out@ == ppm_v(buffer@, width as int, height as int));
    }
    out
}

} // verus!
