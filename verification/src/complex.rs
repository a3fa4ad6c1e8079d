//! Fixed-point complex numbers.
//!
//! A coordinate in the mathematical plane is represented by an integer scaled
//! by `SCALE`: the fixed-point number `n` stands for the real value
//! `n / SCALE`.  All arithmetic on such numbers is exact integer arithmetic;
//! where a product has to be brought back to the common scale it is divided
//! by `SCALE`, truncating toward zero (`tdiv`).
use vstd::prelude::*;

verus! {

/// Fixed-point scale: the representation of the real number 1 (2^16).
pub const SCALE: i64 = 65536;

/// Largest magnitude a viewport corner coordinate may have (2^37 scaled
/// units, about 2 million in real units); parsed coordinates stay within it.
pub const COORD_MAX: i64 = 137438953472;

/// Largest magnitude a mapped point handed to the escape-time evaluator may
/// have (2^55 scaled units).
pub const POINT_MAX: i64 = 36028797018963968;

/// Truncating division (round toward zero), the rounding used whenever a
/// product of two scaled values is brought back to the common scale.  For
/// `b > 0` it agrees with Rust's `/` on signed integers.
pub open spec fn tdiv(a: int, b: int) -> int {
    if a >= 0 {
        a / b
    } else {
        -((-a) / b)
    }
}

/// A point of the complex plane: real and imaginary components in
/// fixed-point representation (scaled by `SCALE`).
#[derive(Clone, Copy, Debug, PartialEq, Eq, Structural)]
pub struct Complex {
    pub re: i64,
    pub im: i64,
}

impl Complex {
    /// Both components small enough to serve as a viewport corner.
    pub open spec fn corner_in_range(self) -> bool {
        -COORD_MAX <= self.re <= COORD_MAX && -COORD_MAX <= self.im <= COORD_MAX
    }

    /// Both components small enough to be evaluated by the escape-time loop.
    pub open spec fn point_in_range(self) -> bool {
        -POINT_MAX <= self.re <= POINT_MAX && -POINT_MAX <= self.im <= POINT_MAX
    }
}

/// `tdiv` stays within `[-m, m]` when the dividend stays within `[-m*b, m*b]`.
pub proof fn lemma_tdiv_bound(a: int, b: int, m: int)
    requires
        0 < b,
        0 <= m,
        -(m * b) <= a <= m * b,
    ensures
        -m <= tdiv(a, b) <= m,
{
    if a >= 0 {
        vstd::arithmetic::div_mod::lemma_div_pos_is_pos(a, b);
        vstd::arithmetic::div_mod::lemma_div_is_ordered(a, m * b, b);
        vstd::arithmetic::div_mod::lemma_div_by_multiple(m, b);
    } else {
        vstd::arithmetic::div_mod::lemma_div_pos_is_pos(-a, b);
        vstd::arithmetic::div_mod::lemma_div_is_ordered(-a, m * b, b);
        vstd::arithmetic::div_mod::lemma_div_by_multiple(m, b);
    }
}

/// `tdiv` never grows the magnitude of the dividend when the divisor is at
/// least 1.
pub proof fn lemma_tdiv_shrinks(a: int, b: int)
    requires
        1 <= b,
    ensures
        a >= 0 ==> 0 <= tdiv(a, b) <= a,
        a < 0 ==> a <= tdiv(a, b) <= 0,
{
    if a >= 0 {
        vstd::arithmetic::div_mod::lemma_div_pos_is_pos(a, b);
        vstd::arithmetic::div_mod::lemma_div_nonincreasing(a, b);
    } else {
        vstd::arithmetic::div_mod::lemma_div_pos_is_pos(-a, b);
        vstd::arithmetic::div_mod::lemma_div_nonincreasing(-a, b);
    }
}

/// Dividing an exact multiple of `b` by `b` recovers the factor, whatever
/// its sign.
pub proof fn lemma_tdiv_exact(s: int, b: int)
    requires
        0 < b,
    ensures
        tdiv(s * b, b) == s,
{
    if s >= 0 {
        vstd::arithmetic::div_mod::lemma_div_by_multiple(s, b);
    } else {
        vstd::arithmetic::mul::lemma_mul_unary_negation(s, b);
        vstd::arithmetic::div_mod::lemma_div_by_multiple(-s, b);
    }
}

} // verus!
