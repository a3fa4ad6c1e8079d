use mandelbrot::complex::Complex;
use mandelbrot::escape::escape_time;
use mandelbrot::mapper::pixel_to_point;
use mandelbrot::parse::{parse_complex, parse_coordinates};
use mandelbrot::png::{encode_image, EncodeError};
use mandelbrot::render::render;

#[test]
fn mapper_corner_convention() {
    let ul = Complex { re: -78643, im: 22937 };
    let lr = Complex { re: -65536, im: 13107 };
    // Pixel (0, 0): the upper-left real part, the negated upper-left
    // imaginary part (the subtracting vertical convention).
    assert_eq!(pixel_to_point((0, 0), (100, 100), ul, lr), Complex { re: ul.re, im: -ul.im });
    // Pixel (width, height): the lower-right real part, negated imaginary.
    assert_eq!(pixel_to_point((100, 100), (100, 100), ul, lr), Complex { re: lr.re, im: -lr.im });
}

#[test]
fn mapper_midpoint() {
    let ul = Complex { re: -131072, im: 65536 };
    let lr = Complex { re: 131072, im: -65536 };
    // The middle of a symmetric viewport maps to the origin.
    let p = pixel_to_point((50, 50), (100, 100), ul, lr);
    assert_eq!(p.re, 0);
    assert_eq!(p.im, 0);
}

#[test]
fn end_to_end_scenario() {
    let bounds = parse_coordinates("100x100", 'x').unwrap();
    let upper_left = parse_complex("-1.20,0.35").unwrap();
    let lower_right = parse_complex("-1.00,0.20").unwrap();
    let width = bounds.0 as usize;
    let height = bounds.1 as usize;
    let mut pixels = vec![0u8; width * height];
    render(&mut pixels, (width, height), upper_left, lower_right);
    assert_eq!(pixels.len(), 10000);
    // Pixel (0, 0) carries the intensity of the point mapped for it, which
    // shares its escape time with the upper-left corner itself (the mapped
    // point is its mirror image across the real axis).
    let expected = match escape_time(upper_left, 255) {
        None => 0u8,
        Some(count) => (255 - count) as u8,
    };
    assert_eq!(pixels[0], expected);
    // Spot-check an interior pixel against the per-pixel pipeline.
    let point = pixel_to_point((37, 81), (width, height), upper_left, lower_right);
    let expected_inner = match escape_time(point, 255) {
        None => 0u8,
        Some(count) => (255 - count) as u8,
    };
    assert_eq!(pixels[81 * width + 37], expected_inner);
}

#[test]
fn encodes_png_stream() {
    let pixels = vec![0u8, 64, 128, 255];
    let bytes = encode_image(&pixels, (2, 2)).unwrap();
    // A PNG stream starts with the fixed eight-byte signature, so the
    // encoder demonstrably did not hand the buffer back unchanged.
    assert_eq!(&bytes[0..8], &[137, 80, 78, 71, 13, 10, 26, 10]);
    assert_ne!(bytes, pixels);
}

#[test]
fn rejects_unencodable_buffers() {
    assert_eq!(encode_image(&vec![0u8; 4], (0, 2)), Err(EncodeError::BadDimensions));
    assert_eq!(encode_image(&vec![0u8; 4], (2, 0)), Err(EncodeError::BadDimensions));
    assert_eq!(encode_image(&vec![0u8; 5], (2, 2)), Err(EncodeError::BadDimensions));
    assert_eq!(encode_image(&vec![0u8; 4], (4, 2)), Err(EncodeError::BadDimensions));
}

#[test]
fn renders_far_viewport_brightly() {
    // A viewport far outside the set: every point escapes in round 0, so
    // every intensity byte is 255.
    let ul = Complex { re: 5 * 65536, im: 5 * 65536 };
    let lr = Complex { re: 6 * 65536, im: 4 * 65536 };
    let mut pixels = vec![0u8; 16];
    render(&mut pixels, (4, 4), ul, lr);
    assert!(pixels.iter().all(|&b| b == 255));
}
