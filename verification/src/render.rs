//! The render pass.
//!
//! For every pixel of the image, in row-major order, the pass maps the
//! pixel to a complex point, evaluates its escape time with an iteration
//! limit of 255, and stores one intensity byte: 0 for points that never
//! escape, `255 - count` for points that escape in round `count`.
use crate::complex::Complex;
use crate::escape::{escape_time, escape_time_spec};
use crate::mapper::{map_im, map_re, pixel_to_point, DIM_MAX};
use vstd::prelude::*;

verus! {

/// The iteration limit of the render pass, chosen so every escape count
/// fits in one byte.
pub const RENDER_LIMIT: u64 = 255;

/// Intensity byte for an escape result: non-escaping points are black,
/// escaping points get `255 - count` (faster escapes are brighter).
pub open spec fn intensity(e: Option<u64>) -> u8 {
    match e {
        Option::None => 0u8,
        Option::Some(count) => if count < 255 {
            (255 - count) as u8
        } else {
            0u8
        },
    }
}

/// The intensity byte the render pass owes pixel `(x, y)`.
pub open spec fn pixel_intensity(
    x: int,
    y: int,
    width: int,
    height: int,
    upper_left: Complex,
    lower_right: Complex,
) -> u8 {
    intensity(
        escape_time_spec(
            map_re(x, width, upper_left.re as int, lower_right.re as int),
            map_im(y, height, upper_left.im as int, lower_right.im as int),
            RENDER_LIMIT,
        ),
    )
}

/// Fills the caller-supplied pixel buffer: after the call, the byte at
/// index `y * width + x` is exactly the intensity owed to pixel `(x, y)`.
/// The buffer's length (`width * height`, row-major) does not change.
pub fn render(
    pixels: &mut Vec<u8>,
    bounds: (usize, usize),
    upper_left: Complex,
    lower_right: Complex,
)
    requires
        old(pixels)@.len() == bounds.0 * bounds.1,
        1 <= bounds.0 <= DIM_MAX,
        1 <= bounds.1 <= DIM_MAX,
        upper_left.corner_in_range(),
        lower_right.corner_in_range(),
    ensures
        final(pixels)@.len() == old(pixels)@.len(),
        forall|x: int, y: int|
            0 <= x < bounds.0 && 0 <= y < bounds.1 ==> final(pixels)@[y * bounds.0 + x]
                == pixel_intensity(
                x,
                y,
                bounds.0 as int,
                bounds.1 as int,
                upper_left,
                lower_right,
            ),
{
    let width = bounds.0;
    let height = bounds.1;
    let mut y: usize = 0;
    while y < height
        invariant
            pixels@.len() == width * height,
            1 <= width <= DIM_MAX,
            1 <= height <= DIM_MAX,
            y <= height,
            upper_left.corner_in_range(),
            lower_right.corner_in_range(),
            forall|xx: int, yy: int|
                0 <= xx < width && 0 <= yy < y ==> pixels@[yy * width + xx] == pixel_intensity(
                    xx,
                    yy,
                    width as int,
                    height as int,
                    upper_left,
                    lower_right,
                ),
        decreases height - y,
    {
        let mut x: usize = 0;
        while x < width
            invariant
                pixels@.len() == width * height,
                1 <= width <= DIM_MAX,
                1 <= height <= DIM_MAX,
                y < height,
                x <= width,
                upper_left.corner_in_range(),
                lower_right.corner_in_range(),
                forall|xx: int, yy: int|
                    0 <= xx < width && 0 <= yy < y ==> pixels@[yy * width + xx] == pixel_intensity(
                        xx,
                        yy,
                        width as int,
                        height as int,
                        upper_left,
                        lower_right,
                    ),
                forall|xx: int|
                    0 <= xx < x ==> pixels@[y * width + xx] == pixel_intensity(
                        xx,
                        y as int,
                        width as int,
                        height as int,
                        upper_left,
                        lower_right,
                    ),
            decreases width - x,
        {
            let point = pixel_to_point((x, y), (width, height), upper_left, lower_right);
            let e = escape_time(point, RENDER_LIMIT);
            let v: u8 = match e {
                Option::None => 0u8,
                Option::Some(count) => (255 - count) as u8,
            };
            proof {
                vstd::arithmetic::mul::lemma_mul_inequality(y + 1, height as int, width as int);
                assert((y as int) * (width as int) + width == (y + 1) * (width as int))
                    by (nonlinear_arith);
                assert(0 <= (y as int) * (width as int) + (x as int) && (y as int) * (width as int)
                    + (x as int) < (width as int) * (height as int) && (width as int) * (
                height as int) <= 1073741824) by (nonlinear_arith)
                    requires
                        0 <= y < height,
                        0 <= x < width,
                        1 <= width <= 32768,
                        1 <= height <= 32768,
                ;
            }
            let index: usize = y * width + x;
            pixels.set(index, v);
            proof {
                assert forall|xx: int, yy: int|
                    0 <= xx < width && 0 <= yy < y implies pixels@[yy * width + xx]
                    == pixel_intensity(
                    xx,
                    yy,
                    width as int,
                    height as int,
                    upper_left,
                    lower_right,
                ) by {
                    vstd::arithmetic::mul::lemma_mul_inequality(yy + 1, y as int, width as int);
                    assert(yy * (width as int) + width == (yy + 1) * (width as int))
                        by (nonlinear_arith);
                }
            }
            x = x + 1;
        }
        y = y + 1;
    }
}

} // verus!
