//! Image-space to number-space mapping.
//!
//! A pixel coordinate is turned into a complex point by linear
//! interpolation across the viewport spanned by the `upper_left` and
//! `lower_right` corners.  The vertical formula follows the convention of
//! subtracting `upper_left.im` (rather than adding it), so the point mapped
//! for pixel row 0 carries the negated imaginary part of the upper-left
//! corner; the corner lemma below states the convention exactly.
use crate::complex::{tdiv, Complex, COORD_MAX};
use vstd::prelude::*;

verus! {

/// Largest pixel dimension (width or height) the render pass accepts.
pub const DIM_MAX: usize = 32768;

/// Real part of the mapped point: `(x / width) * (lr_re - ul_re) + ul_re`,
/// evaluated exactly as `(x * span) / width + ul_re`.
pub open spec fn map_re(x: int, width: int, ul_re: int, lr_re: int) -> int {
    tdiv(x * (lr_re - ul_re), width) + ul_re
}

/// Imaginary part of the mapped point:
/// `(y / height) * (ul_im - lr_im) - ul_im`, evaluated exactly as
/// `(y * span) / height - ul_im`.
pub open spec fn map_im(y: int, height: int, ul_im: int, lr_im: int) -> int {
    tdiv(y * (ul_im - lr_im), height) - ul_im
}

/// Converts a pixel coordinate in image space to the corresponding point in
/// number space.  Pixels outside `[0, bounds)` simply extrapolate linearly;
/// no bounds check is made.
pub fn pixel_to_point(
    pixel: (usize, usize),
    bounds: (usize, usize),
    upper_left: Complex,
    lower_right: Complex,
) -> (p: Complex)
    requires
        1 <= bounds.0 <= DIM_MAX,
        1 <= bounds.1 <= DIM_MAX,
        pixel.0 <= DIM_MAX,
        pixel.1 <= DIM_MAX,
        upper_left.corner_in_range(),
        lower_right.corner_in_range(),
    ensures
        p.re as int == map_re(
            pixel.0 as int,
            bounds.0 as int,
            upper_left.re as int,
            lower_right.re as int,
        ),
        p.im as int == map_im(
            pixel.1 as int,
            bounds.1 as int,
            upper_left.im as int,
            lower_right.im as int,
        ),
        p.point_in_range(),
{
    let span_re: i64 = lower_right.re - upper_left.re;
    let span_im: i64 = upper_left.im - lower_right.im;
    proof {
        assert(-9007199254740992 <= (pixel.0 as int) * (span_re as int) <= 9007199254740992 && -9007199254740992
            <= (pixel.1 as int) * (span_im as int) <= 9007199254740992) by (nonlinear_arith)
            requires
                0 <= pixel.0 <= DIM_MAX as int,
                0 <= pixel.1 <= DIM_MAX as int,
                -2 * COORD_MAX <= span_re <= 2 * COORD_MAX,
                -2 * COORD_MAX <= span_im <= 2 * COORD_MAX,
        ;
        crate::complex::lemma_tdiv_shrinks((pixel.0 as int) * (span_re as int), bounds.0 as int);
        crate::complex::lemma_tdiv_shrinks((pixel.1 as int) * (span_im as int), bounds.1 as int);
    }
    let x_scaled: i128 = (pixel.0 as i128) * (span_re as i128);
    let y_scaled: i128 = (pixel.1 as i128) * (span_im as i128);
    let re_w: i128 = x_scaled / (bounds.0 as i128) + (upper_left.re as i128);
    let im_w: i128 = y_scaled / (bounds.1 as i128) - (upper_left.im as i128);
    Complex { re: re_w as i64, im: im_w as i64 }
}

/// Law: the corner convention of the mapper.  Pixel `(0, 0)` maps to the
/// upper-left corner's real part paired with the *negated* upper-left
/// imaginary part, and pixel `(width, height)` maps to the lower-right
/// corner's real part paired with the negated lower-right imaginary part.
pub proof fn lemma_map_corners(width: int, height: int, upper_left: Complex, lower_right: Complex)
    requires
        1 <= width,
        1 <= height,
    ensures
        map_re(0, width, upper_left.re as int, lower_right.re as int) == upper_left.re,
        map_im(0, height, upper_left.im as int, lower_right.im as int) == -(upper_left.im as int),
        map_re(width, width, upper_left.re as int, lower_right.re as int) == lower_right.re,
        map_im(height, height, upper_left.im as int, lower_right.im as int) == -(
        lower_right.im as int),
{
    let span_re = lower_right.re - upper_left.re;
    let span_im = upper_left.im - lower_right.im;
    vstd::arithmetic::div_mod::lemma_div_basics(width);
    vstd::arithmetic::div_mod::lemma_div_basics(height);
    assert(0 * span_re == 0) by (nonlinear_arith);
    assert(0 * span_im == 0) by (nonlinear_arith);
    assert(width * span_re == span_re * width) by (nonlinear_arith);
    assert(height * span_im == span_im * height) by (nonlinear_arith);
    crate::complex::lemma_tdiv_exact(span_re, width);
    crate::complex::lemma_tdiv_exact(span_im, height);
}

} // verus!
