use mandelbrot::complex::Complex;
use mandelbrot::parse::{parse_complex, parse_coordinates, parse_scaled};

#[test]
fn parses_size_pair() {
    assert_eq!(parse_coordinates("100x200", 'x'), Some((100, 200)));
    assert_eq!(parse_coordinates("1000x750", 'x'), Some((1000, 750)));
}

#[test]
fn parses_decimal_pair() {
    // 1.5 and 2.5 are exactly representable: 1.5 * 65536 = 98304,
    // 2.5 * 65536 = 163840.
    assert_eq!(parse_complex("1.5,2.5"), Some(Complex { re: 98304, im: 163840 }));
}

#[test]
fn rejects_missing_separator() {
    assert_eq!(parse_coordinates("bad", 'x'), None);
    assert_eq!(parse_coordinates("100200", 'x'), None);
    assert_eq!(parse_complex("12"), None);
}

#[test]
fn rejects_malformed_side() {
    assert_eq!(parse_complex("1,bad"), None);
    assert_eq!(parse_complex("bad,1"), None);
    assert_eq!(parse_coordinates("10xbad", 'x'), None);
    assert_eq!(parse_coordinates("x20", 'x'), None);
}

#[test]
fn parses_signed_fractions() {
    assert_eq!(parse_scaled("-0.5"), Some(-32768));
    assert_eq!(parse_scaled("0.35"), Some(22937));
    assert_eq!(parse_scaled("-1.20"), Some(-78643));
    assert_eq!(parse_scaled("1."), Some(65536));
    assert_eq!(parse_scaled("7"), Some(7 * 65536));
}

#[test]
fn rejects_numerals_out_of_shape() {
    assert_eq!(parse_scaled(""), None);
    assert_eq!(parse_scaled("-"), None);
    assert_eq!(parse_scaled(".5"), None);
    assert_eq!(parse_scaled("1234567"), None);
    assert_eq!(parse_scaled("1.0000000001"), None);
    assert_eq!(parse_scaled("1.2.3"), None);
    assert_eq!(parse_scaled("--1"), None);
}

#[test]
fn parses_negative_coordinate_pairs() {
    assert_eq!(parse_complex("-1.20,0.35"), Some(Complex { re: -78643, im: 22937 }));
    assert_eq!(parse_complex("-1.00,0.20"), Some(Complex { re: -65536, im: 13107 }));
}
