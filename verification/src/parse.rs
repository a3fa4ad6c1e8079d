//! Parsing of the textual inputs.
//!
//! Two shapes of input are read: a pair of unsigned decimal integers
//! separated by a single character (an image size such as `100x200`), and a
//! pair of signed decimal numerals separated by a comma (a complex
//! coordinate such as `-1.20,0.35`).  A numeral is an optional minus sign,
//! one to six integer digits, and optionally a dot followed by up to nine
//! fraction digits; its value is converted exactly into the fixed-point
//! scale of the library.  Parsing fails — with no partial result — when the
//! separator is missing or either side is not a numeral.
use crate::complex::{tdiv, Complex, COORD_MAX, SCALE};
use vstd::prelude::*;

verus! {

/// A decimal digit.
pub open spec fn is_digit(c: char) -> bool {
    48 <= c as u32 <= 57
}

/// The numeric value of a decimal digit.
pub open spec fn digit_val(c: char) -> int {
    c as u32 - 48
}

/// Every character of the sequence is a decimal digit.
pub open spec fn all_digits(s: Seq<char>) -> bool {
    forall|i: int| 0 <= i < s.len() ==> is_digit(#[trigger] s[i])
}

/// The value of a digit string read most-significant first.
pub open spec fn digits_val(s: Seq<char>) -> int
    decreases s.len(),
{
    if s.len() == 0 {
        0
    } else {
        digits_val(s.drop_last()) * 10 + digit_val(s.last())
    }
}

/// Ten to the `n`-th power.
pub open spec fn pow10(n: nat) -> int
    decreases n,
{
    if n == 0 {
        1
    } else {
        10 * pow10((n - 1) as nat)
    }
}

/// The index of the first occurrence of `c` at or after `i`, or the length
/// of the sequence when there is none.
pub open spec fn first_index_from(s: Seq<char>, c: char, i: int) -> int
    decreases s.len() - i,
{
    if i < 0 || i >= s.len() {
        s.len() as int
    } else if s[i] == c {
        i
    } else {
        first_index_from(s, c, i + 1)
    }
}

/// The index of the first occurrence of `c`, or the length when absent.
pub open spec fn first_index(s: Seq<char>, c: char) -> int {
    first_index_from(s, c, 0)
}

/// A string of one to eighteen decimal digits: the shape accepted as one
/// side of an unsigned coordinate pair.
pub open spec fn u64_numeral(s: Seq<char>) -> bool {
    1 <= s.len() <= 18 && all_digits(s)
}

/// The digits before the first dot.
pub open spec fn int_part(s: Seq<char>) -> Seq<char> {
    s.subrange(0, first_index(s, '.'))
}

/// The digits after the first dot; empty when there is no dot.
pub open spec fn frac_part(s: Seq<char>) -> Seq<char> {
    if first_index(s, '.') < s.len() {
        s.subrange(first_index(s, '.') + 1, s.len() as int)
    } else {
        Seq::empty()
    }
}

/// An unsigned decimal numeral: one to six integer digits, optionally a
/// dot and up to nine fraction digits.
pub open spec fn unsigned_numeral(s: Seq<char>) -> bool {
    &&& 1 <= int_part(s).len() <= 6
    &&& all_digits(int_part(s))
    &&& frac_part(s).len() <= 9
    &&& all_digits(frac_part(s))
}

/// The exact fixed-point value of an unsigned numeral: the integer part at
/// full scale plus the fraction scaled and truncated toward zero.
pub open spec fn unsigned_numeral_val(s: Seq<char>) -> int {
    digits_val(int_part(s)) * (SCALE as int) + tdiv(
        digits_val(frac_part(s)) * (SCALE as int),
        pow10(frac_part(s).len()),
    )
}

/// A signed decimal numeral: an optional leading minus sign before an
/// unsigned numeral.
pub open spec fn signed_numeral(s: Seq<char>) -> bool {
    if s.len() > 0 && s[0] == '-' {
        unsigned_numeral(s.skip(1))
    } else {
        unsigned_numeral(s)
    }
}

/// The exact fixed-point value of a signed numeral.
pub open spec fn signed_numeral_val(s: Seq<char>) -> int {
    if s.len() > 0 && s[0] == '-' {
        -unsigned_numeral_val(s.skip(1))
    } else {
        unsigned_numeral_val(s)
    }
}

/// A digit string's value is nonnegative and below ten to its length.
proof fn lemma_digits_val_bound(s: Seq<char>)
    requires
        all_digits(s),
    ensures
        0 <= digits_val(s) < pow10(s.len()),
    decreases s.len(),
{
    if s.len() > 0 {
        assert(all_digits(s.drop_last()));
        lemma_digits_val_bound(s.drop_last());
    }
}

/// Ten to a power of at most eighteen, as concrete numbers.
proof fn lemma_pow10_values()
    ensures
        pow10(6) == 1000000,
        pow10(9) == 1000000000,
        pow10(18) == 1000000000000000000,
{
    reveal_with_fuel(pow10, 20);
}

/// `pow10` is monotone.
proof fn lemma_pow10_increases(a: nat, b: nat)
    requires
        a <= b,
    ensures
        1 <= pow10(a) <= pow10(b),
    decreases b,
{
    if a < b {
        lemma_pow10_increases(a, (b - 1) as nat);
    } else if b > 0 {
        lemma_pow10_increases((a - 1) as nat, (b - 1) as nat);
    }
}

/// Parses a string of one to eighteen decimal digits into its value.
fn parse_u64_numeral(s: &str) -> (r: Option<u64>)
    ensures
        r == if u64_numeral(s@) {
            Some(digits_val(s@) as u64)
        } else {
            None::<u64>
        },
{
    let n = s.unicode_len();
    if n == 0 || n > 18 {
        return None;
    }
    let mut acc: u64 = 0;
    let mut i: usize = 0;
    while i < n
        invariant
            n == s@.len(),
            1 <= n <= 18,
            i <= n,
            all_digits(s@.subrange(0, i as int)),
            acc == digits_val(s@.subrange(0, i as int)),
        decreases n - i,
    {
        let c = s.get_char(i);
        let cu = c as u32;
        if cu < 48 || cu > 57 {
            proof {
                assert(!is_digit(s@[i as int]));
            }
            return None;
        }
        proof {
            lemma_digits_val_bound(s@.subrange(0, i as int));
            lemma_pow10_increases(i as nat, 17);
            lemma_pow10_values();
            assert(s@.subrange(0, i + 1).drop_last() =~= s@.subrange(0, i as int));
            assert(s@.subrange(0, i + 1).last() == s@[i as int]);
        }
        acc = acc * 10 + ((cu - 48) as u64);
        i = i + 1;
    }
    proof {
        assert(s@.subrange(0, n as int) =~= s@);
        lemma_digits_val_bound(s@);
    }
    Some(acc)
}

/// Finds the first occurrence of `sep`, if any.
fn find_char(s: &str, sep: char) -> (r: Option<usize>)
    ensures
        match r {
            Some(j) => j == first_index(s@, sep) && j < s@.len(),
            None => first_index(s@, sep) == s@.len(),
        },
{
    let n = s.unicode_len();
    let mut i: usize = 0;
    while i < n
        invariant
            n == s@.len(),
            i <= n,
            first_index(s@, sep) == first_index_from(s@, sep, i as int),
        decreases n - i,
    {
        let c = s.get_char(i);
        if c == sep {
            return Some(i);
        }
        i = i + 1;
    }
    None
}

/// Splits a string of the form `<left><sep><right>` at the first
/// occurrence of `sep` and parses both sides as unsigned decimal integers.
/// Returns the pair exactly when the separator occurs and both sides are
/// digit strings; any malformed side fails the whole parse.
pub fn parse_coordinates(s: &str, sep: char) -> (r: Option<(u64, u64)>)
    ensures
        ({
            let j = first_index(s@, sep);
            let left = s@.subrange(0, j);
            let right = s@.subrange(j + 1, s@.len() as int);
            r == if j < s@.len() && u64_numeral(left) && u64_numeral(right) {
                Some((digits_val(left) as u64, digits_val(right) as u64))
            } else {
                None::<(u64, u64)>
            }
        }),
{
    let n = s.unicode_len();
    match find_char(s, sep) {
        None => None,
        Some(j) => {
            let left = s.substring_char(0, j);
            let right = s.substring_char(j + 1, n);
            match (parse_u64_numeral(left), parse_u64_numeral(right)) {
                (Some(l), Some(rv)) => Some((l, rv)),
                _ => None,
            }
        },
    }
}

/// Parses an unsigned decimal numeral into its exact fixed-point value.
fn parse_unsigned_scaled(s: &str) -> (r: Option<i64>)
    ensures
        r == if unsigned_numeral(s@) {
            Some(unsigned_numeral_val(s@) as i64)
        } else {
            None::<i64>
        },
        r matches Some(v) ==> 0 <= v <= COORD_MAX,
        unsigned_numeral(s@) ==> 0 <= unsigned_numeral_val(s@) <= COORD_MAX,
{
    let n = s.unicode_len();
    let j = match find_char(s, '.') {
        Some(j) => j,
        None => n,
    };
    if j < 1 || j > 6 {
        return None;
    }
    let ip = s.substring_char(0, j);
    proof {
        assert(ip@ =~= int_part(s@));
    }
    let ipv = match parse_u64_numeral(ip) {
        Some(v) => v,
        None => {
            return None;
        },
    };
    let mut fl: usize = 0;
    let mut fv: u64 = 0;
    if j < n {
        fl = n - j - 1;
        if fl > 9 {
            return None;
        }
        if fl > 0 {
            let fp = s.substring_char(j + 1, n);
            proof {
                assert(fp@ =~= frac_part(s@));
            }
            fv = match parse_u64_numeral(fp) {
                Some(v) => v,
                None => {
                    return None;
                },
            };
        }
    }
    proof {
        lemma_pow10_values();
        lemma_digits_val_bound(int_part(s@));
        lemma_digits_val_bound(frac_part(s@));
        lemma_pow10_increases(int_part(s@).len(), 6);
        lemma_pow10_increases(frac_part(s@).len(), 9);
        if fl == 0 {
            assert(frac_part(s@) =~= Seq::<char>::empty());
        }
    }
    let p10 = pow10_exec(fl);
    let frac_scaled: u64 = fv * 65536 / p10;
    proof {
        vstd::arithmetic::div_mod::lemma_div_pos_is_pos(fv * 65536, p10 as int);
        vstd::arithmetic::div_mod::lemma_div_is_ordered(
            fv * 65536,
            (pow10(fl as nat) - 1) * 65536,
            p10 as int,
        );
        vstd::arithmetic::mul::lemma_mul_inequality(fv as int, pow10(fl as nat) - 1, 65536);
        crate::complex::lemma_tdiv_bound((fv * 65536) as int, p10 as int, 65536);
        vstd::arithmetic::mul::lemma_mul_inequality(
            fv as int,
            (p10 as int) * 65536,
            1,
        );
    }
    let val: i64 = (ipv as i64) * 65536 + (frac_scaled as i64);
    Some(val)
}

/// Ten to a small power, executably.
fn pow10_exec(d: usize) -> (r: u64)
    requires
        d <= 9,
    ensures
        r == pow10(d as nat),
        1 <= r <= 1000000000,
{
    proof {
        lemma_pow10_values();
    }
    let mut r: u64 = 1;
    let mut i: usize = 0;
    while i < d
        invariant
            i <= d <= 9,
            r == pow10(i as nat),
            1 <= r <= 1000000000,
        decreases d - i,
    {
        proof {
            lemma_pow10_increases((i + 1) as nat, 9);
            lemma_pow10_values();
        }
        r = r * 10;
        i = i + 1;
    }
    r
}

/// Parses a signed decimal numeral into its exact fixed-point value.
pub fn parse_scaled(s: &str) -> (r: Option<i64>)
    ensures
        r == if signed_numeral(s@) {
            Some(signed_numeral_val(s@) as i64)
        } else {
            None::<i64>
        },
        r matches Some(v) ==> -COORD_MAX <= v <= COORD_MAX,
{
    let n = s.unicode_len();
    if n > 0 && s.get_char(0) == '-' {
        let rest = s.substring_char(1, n);
        proof {
            assert(rest@ =~= s@.skip(1));
        }
        match parse_unsigned_scaled(rest) {
            Some(v) => Some(-v),
            None => None,
        }
    } else {
        parse_unsigned_scaled(s)
    }
}

/// Parses a complex coordinate of the form `<real>,<imag>`: both sides
/// must be signed decimal numerals, split at the first comma.
pub fn parse_complex(s: &str) -> (r: Option<Complex>)
    ensures
        ({
            let j = first_index(s@, ',');
            let left = s@.subrange(0, j);
            let right = s@.subrange(j + 1, s@.len() as int);
            r == if j < s@.len() && signed_numeral(left) && signed_numeral(right) {
                Some(
                    Complex {
                        re: signed_numeral_val(left) as i64,
                        im: signed_numeral_val(right) as i64,
                    },
                )
            } else {
                None::<Complex>
            }
        }),
        r matches Some(c) ==> c.corner_in_range(),
{
    let n = s.unicode_len();
    match find_char(s, ',') {
        None => None,
        Some(j) => {
            let left = s.substring_char(0, j);
            let right = s.substring_char(j + 1, n);
            match (parse_scaled(left), parse_scaled(right)) {
                (Some(re), Some(im)) => Some(Complex { re, im }),
                _ => None,
            }
        },
    }
}

} // verus!
