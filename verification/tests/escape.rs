use mandelbrot::complex::Complex;
use mandelbrot::escape::escape_time;

#[test]
fn far_point_escapes_immediately() {
    // 5 + 0i lies far outside the disk of radius 2 and escapes in round 0.
    let c = Complex { re: 5 * 65536, im: 0 };
    assert_eq!(escape_time(c, 10), Some(0));
    assert_eq!(escape_time(c, 1), Some(0));
}

#[test]
fn origin_never_escapes() {
    let origin = Complex { re: 0, im: 0 };
    assert_eq!(escape_time(origin, 1), None);
    assert_eq!(escape_time(origin, 255), None);
    assert_eq!(escape_time(origin, 10000), None);
}

#[test]
fn zero_limit_reports_no_escape() {
    let c = Complex { re: 5 * 65536, im: 0 };
    assert_eq!(escape_time(c, 0), None);
}

#[test]
fn monotone_limits_keep_results() {
    // 2 + 0i sits on the radius-2 circle: the first iterate does not leave
    // the disk, the second does, so the escape round is 1.
    let c = Complex { re: 2 * 65536, im: 0 };
    assert_eq!(escape_time(c, 1), None);
    assert_eq!(escape_time(c, 2), Some(1));
    // Raising the limit never changes an existing Some, and the None at
    // limit 1 turned into a Some whose index is at least that old limit.
    assert_eq!(escape_time(c, 100), Some(1));
    assert_eq!(escape_time(c, 10000), Some(1));
}

#[test]
fn interior_point_stays_bounded() {
    // -1 + 0i belongs to the Mandelbrot set: the orbit cycles 0, -1, 0, ...
    let c = Complex { re: -65536, im: 0 };
    assert_eq!(escape_time(c, 255), None);
}
