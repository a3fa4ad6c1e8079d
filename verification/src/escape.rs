//! Escape-time evaluation.
//!
//! For a complex point `c` the evaluator iterates `z := z*z + c` starting
//! from `z = 0` and reports the first iteration index at which `z` leaves
//! the disk of radius 2, or `None` when no escape happens within the
//! iteration limit.  The test uses the squared magnitude against `4`
//! (here: against `4 * SCALE * SCALE`, since coordinates are scaled), so no
//! square root is ever taken.
use crate::complex::{tdiv, Complex, SCALE};
use vstd::prelude::*;

verus! {

/// Real part of `z*z + c` in fixed-point arithmetic.
pub open spec fn step_re(zr: int, zi: int, cr: int) -> int {
    tdiv(zr * zr - zi * zi, SCALE as int) + cr
}

/// Imaginary part of `z*z + c` in fixed-point arithmetic.
pub open spec fn step_im(zr: int, zi: int, ci: int) -> int {
    tdiv(2 * zr * zi, SCALE as int) + ci
}

/// The `n`-th iterate of `z := z*z + c` starting from `z = 0`, as a
/// (real, imaginary) pair of scaled integers.
pub open spec fn orbit(cr: int, ci: int, n: nat) -> (int, int)
    decreases n,
{
    if n == 0 {
        (0int, 0int)
    } else {
        let z = orbit(cr, ci, (n - 1) as nat);
        (step_re(z.0, z.1, cr), step_im(z.0, z.1, ci))
    }
}

/// Squared magnitude of a complex value given by its components.
pub open spec fn norm_sqr(zr: int, zi: int) -> int {
    zr * zr + zi * zi
}

/// The squared magnitude of 2, in scaled units: an iterate whose squared
/// norm exceeds this has left the disk of radius 2.
pub open spec fn escape_threshold() -> int {
    4 * (SCALE as int) * (SCALE as int)
}

/// Whether the `n`-th iterate for `c` lies outside the disk of radius 2.
pub open spec fn escapes_at(cr: int, ci: int, n: nat) -> bool {
    let z = orbit(cr, ci, n);
    norm_sqr(z.0, z.1) > escape_threshold()
}

/// The escape result when iteration begins at index `i`: `Some(k)` for the
/// least `k` in `[i, limit)` whose next iterate (the `k+1`-st) escapes,
/// `None` when none does.
pub open spec fn escape_from(cr: int, ci: int, i: u64, limit: u64) -> Option<u64>
    decreases limit - i,
{
    if i >= limit {
        None
    } else if escapes_at(cr, ci, (i + 1) as nat) {
        Some(i)
    } else {
        escape_from(cr, ci, (i + 1) as u64, limit)
    }
}

/// What `escape_time` returns for the point with scaled components
/// `(cr, ci)` and the given iteration limit.
pub open spec fn escape_time_spec(cr: int, ci: int, limit: u64) -> Option<u64> {
    escape_from(cr, ci, 0, limit)
}

/// Bounds needed to square a non-escaped iterate: components whose squared
/// norm is at most `4*s*s` lie within `[-2s, 2s]`, and both fixed-point
/// products lie within `[-(4s)*s, (4s)*s]`.
proof fn lemma_step_products_bounded(a: int, b: int, s: int)
    by (nonlinear_arith)
    requires
        1 <= s,
        a * a + b * b <= 4 * s * s,
    ensures
        -2 * s <= a <= 2 * s,
        -2 * s <= b <= 2 * s,
        0 <= a * a <= 4 * s * s,
        0 <= b * b <= 4 * s * s,
        -((4 * s) * s) <= a * a - b * b <= (4 * s) * s,
        -((4 * s) * s) <= 2 * a * b <= (4 * s) * s,
{
    assert(a * a >= 0);
    assert(b * b >= 0);
    assert((a - b) * (a - b) >= 0);
    assert((a + b) * (a + b) >= 0);
}

/// Squares of values within `[-m, m]` are at most `m*m`.
proof fn lemma_square_bound(a: int, m: int)
    by (nonlinear_arith)
    requires
        -m <= a <= m,
    ensures
        0 <= a * a <= m * m,
{
}

/// Escape-time evaluation of the quadratic recurrence: iterates
/// `z := z*z + c` from `z = 0` and returns `Some(i)` as soon as the iterate
/// computed in round `i` (the `i+1`-st orbit element) has squared magnitude
/// above `4`, or `None` when no iterate within the limit does.
pub fn escape_time(c: Complex, iteration_limit: u64) -> (r: Option<u64>)
    requires
        c.point_in_range(),
    ensures
        r == escape_time_spec(c.re as int, c.im as int, iteration_limit),
        r matches Some(k) ==> k < iteration_limit,
{
    let ghost cr: int = c.re as int;
    let ghost ci: int = c.im as int;
    let mut zr: i64 = 0;
    let mut zi: i64 = 0;
    let mut i: u64 = 0;
    while i < iteration_limit
        invariant
            c.point_in_range(),
            cr == c.re as int,
            ci == c.im as int,
            i <= iteration_limit,
            (zr as int, zi as int) == orbit(cr, ci, i as nat),
            norm_sqr(zr as int, zi as int) <= escape_threshold(),
            escape_time_spec(cr, ci, iteration_limit) == escape_from(cr, ci, i, iteration_limit),
        decreases iteration_limit - i,
    {
        proof {
            lemma_step_products_bounded(zr as int, zi as int, SCALE as int);
            crate::complex::lemma_tdiv_bound(
                (zr as int) * (zr as int) - (zi as int) * (zi as int),
                SCALE as int,
                4 * (SCALE as int),
            );
            crate::complex::lemma_tdiv_bound(
                2 * (zr as int) * (zi as int),
                SCALE as int,
                4 * (SCALE as int),
            );
        }
        let zr_w: i128 = zr as i128;
        let zi_w: i128 = zi as i128;
        let next_re: i128 = (zr_w * zr_w - zi_w * zi_w) / (SCALE as i128) + (c.re as i128);
        let next_im: i128 = (2 * zr_w * zi_w) / (SCALE as i128) + (c.im as i128);
        proof {
            assert(next_re as int == step_re(zr as int, zi as int, cr));
            assert(next_im as int == step_im(zr as int, zi as int, ci));
            assert(orbit(cr, ci, (i + 1) as nat) == (next_re as int, next_im as int));
            lemma_square_bound(next_re as int, 4 * (SCALE as int) + crate::complex::POINT_MAX as int);
            lemma_square_bound(next_im as int, 4 * (SCALE as int) + crate::complex::POINT_MAX as int);
        }
        let norm: i128 = next_re * next_re + next_im * next_im;
        if norm > 4 * (SCALE as i128) * (SCALE as i128) {
            proof {
                assert(escapes_at(cr, ci, (i + 1) as nat));
            }
            return Some(i);
        }
        zr = next_re as i64;
        zi = next_im as i64;
        i = i + 1;
    }
    None
}

/// The orbit of the origin is the origin forever: `0*0 + 0 == 0`.
proof fn lemma_orbit_origin(n: nat)
    ensures
        orbit(0, 0, n) == (0int, 0int),
    decreases n,
{
    if n > 0 {
        lemma_orbit_origin((n - 1) as nat);
        vstd::arithmetic::div_mod::lemma_div_basics(SCALE as int);
    }
}

/// Helper for the origin law: starting anywhere in the index range, the
/// origin's escape search comes up empty.
proof fn lemma_origin_escape_from_none(i: u64, limit: u64)
    ensures
        escape_from(0, 0, i, limit) is None,
    decreases limit - i,
{
    if i < limit {
        lemma_orbit_origin((i + 1) as nat);
        lemma_origin_escape_from_none((i + 1) as u64, limit);
    }
}

/// Law: the origin never escapes, whatever the iteration limit.
pub proof fn lemma_origin_never_escapes(limit: u64)
    ensures
        escape_time_spec(0, 0, limit) is None,
{
    lemma_origin_escape_from_none(0, limit);
}

/// Law: a point outside the disk of radius 2 escapes at the very first
/// iteration, for every limit of at least 1.  (For a limit of 0 the
/// evaluator inspects no iterate at all and reports `None`.)
pub proof fn lemma_outside_radius_escapes(cr: int, ci: int, limit: u64)
    requires
        norm_sqr(cr, ci) > escape_threshold(),
        limit >= 1,
    ensures
        escape_time_spec(cr, ci, limit) == Some(0u64),
{
    vstd::arithmetic::div_mod::lemma_div_basics(SCALE as int);
    assert(orbit(cr, ci, 0) == (0int, 0int));
    assert(orbit(cr, ci, 1) == (cr, ci));
}

/// Any hit that `escape_from` reports lies in the searched index range.
proof fn lemma_escape_from_some_range(cr: int, ci: int, i: u64, limit: u64)
    ensures
        escape_from(cr, ci, i, limit) matches Some(k) ==> i <= k < limit,
    decreases limit - i,
{
    if i < limit && !escapes_at(cr, ci, (i + 1) as nat) {
        lemma_escape_from_some_range(cr, ci, (i + 1) as u64, limit);
    }
}

/// Helper for monotonicity, generalized over the start index.
proof fn lemma_escape_from_monotone(cr: int, ci: int, i: u64, limit1: u64, limit2: u64)
    requires
        limit1 <= limit2,
    ensures
        escape_from(cr, ci, i, limit1) matches Some(k) ==> escape_from(cr, ci, i, limit2)
            == Some(k),
        escape_from(cr, ci, i, limit1) is None ==> (escape_from(cr, ci, i, limit2) is None
            || escape_from(cr, ci, i, limit2)->Some_0 >= limit1),
    decreases limit2 - i,
{
    if i >= limit1 {
        lemma_escape_from_some_range(cr, ci, i, limit2);
    } else if !escapes_at(cr, ci, (i + 1) as nat) {
        lemma_escape_from_monotone(cr, ci, (i + 1) as u64, limit1, limit2);
    }
}

/// Law: raising the iteration limit is consistent with earlier results.  A
/// `Some(k)` stays exactly `Some(k)`, and a `None` can only turn into a
/// `Some(k)` whose escape index `k` is at least the old limit.
pub proof fn lemma_escape_time_monotone(cr: int, ci: int, limit1: u64, limit2: u64)
    requires
        limit1 <= limit2,
    ensures
        escape_time_spec(cr, ci, limit1) matches Some(k) ==> escape_time_spec(cr, ci, limit2)
            == Some(k),
        escape_time_spec(cr, ci, limit1) is None ==> (escape_time_spec(cr, ci, limit2) is None
            || escape_time_spec(cr, ci, limit2)->Some_0 >= limit1),
{
    lemma_escape_from_monotone(cr, ci, 0, limit1, limit2);
}

} // verus!
