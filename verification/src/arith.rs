//! Wide multiply-then-divide, and the integer facts behind the oracle's
//! weighted means and window averages.

use vstd::arithmetic::div_mod::{
    lemma_div_by_multiple, lemma_div_is_ordered, lemma_hoist_over_denominator,
};
use vstd::arithmetic::mul::{lemma_mul_inequality, lemma_mul_nonnegative};
use vstd::prelude::*;

verus! {

/// `a * b / c` rounded down, over the unbounded integers.
pub open spec fn mul_div(a: int, b: int, c: int) -> int {
    (a * b) / c
}

/// The 128-bit outcome of `a * b / c`: absent when the divisor is zero or
/// when the rounded-down quotient does not fit in 128 bits.
pub open spec fn checked_mul_div(a: u128, b: u128, c: u128) -> Option<u128> {
    if c == 0 || mul_div(a as int, b as int, c as int) > u128::MAX {
        None
    } else {
        Some(mul_div(a as int, b as int, c as int) as u128)
    }
}

/// Trusted. Calls `sp_arithmetic::helpers_128bit::multiply_by_rational_with_rounding`
/// with `Rounding::Down`. That function forms the full 256-bit product of
/// `a` and `b`, divides it by `c`, and discards the remainder. It returns
/// `None` when `c` is zero or when the quotient needs more than 128 bits,
/// and never panics.
#[verifier::external_body]
pub(crate) fn multiply_by_rational(a: u128, b: u128, c: u128) -> (r: Option<u128>)
    ensures
        r == checked_mul_div(a, b, c),
{
    sp_arithmetic::helpers_128bit::multiply_by_rational_with_rounding(
        a,
        b,
        c,
        sp_arithmetic::Rounding::Down,
    )
}

/// The mean of `x` and `y` weighted by `wx` and `wy`, rounded down.
pub open spec fn weighted_mean(x: int, wx: int, y: int, wy: int) -> int {
    (x * wx + y * wy) / (wx + wy)
}

/// Scaling by a fraction that is at most one never grows a value.
pub proof fn lemma_mul_div_bounded(a: int, b: int, c: int)
    requires
        0 <= a,
        0 <= b <= c,
        0 < c,
    ensures
        0 <= mul_div(a, b, c) <= a,
{
    lemma_mul_nonnegative(a, b);
    lemma_mul_inequality(b, c, a);
    lemma_div_is_ordered(0, a * b, c);
    lemma_div_is_ordered(a * b, a * c, c);
    lemma_div_by_multiple(a, c);
}

/// A weighted mean is the lower value plus the weighted share of the gap
/// to the higher one, so it lies between the two, whichever comes first.
pub proof fn lemma_weighted_mean_from_low(lo: int, w_lo: int, hi: int, w_hi: int)
    requires
        0 <= lo <= hi,
        0 <= w_lo,
        0 <= w_hi,
        0 < w_lo + w_hi,
    ensures
        weighted_mean(lo, w_lo, hi, w_hi) == lo + mul_div(hi - lo, w_hi, w_lo + w_hi),
        weighted_mean(hi, w_hi, lo, w_lo) == weighted_mean(lo, w_lo, hi, w_hi),
        lo <= weighted_mean(lo, w_lo, hi, w_hi) <= hi,
{
    let total = w_lo + w_hi;
    let gap = (hi - lo) * w_hi;
    assert(lo * w_lo + hi * w_hi == gap + lo * total) by (nonlinear_arith)
        requires
            total == w_lo + w_hi,
            gap == (hi - lo) * w_hi,
    ;
    lemma_hoist_over_denominator(gap, lo, total as nat);
    lemma_mul_div_bounded(hi - lo, w_hi, total);
}

/// The weighted mean of two 128-bit values. It always fits, because it
/// lies between them.
pub fn weighted_mean_u128(x: u128, wx: u128, y: u128, wy: u128) -> (mean: u128)
    requires
        0 < wx + wy <= u128::MAX,
    ensures
        mean == weighted_mean(x as int, wx as int, y as int, wy as int),
{
    let total: u128 = wx + wy;
    if x <= y {
        proof {
            lemma_weighted_mean_from_low(x as int, wx as int, y as int, wy as int);
        }
        match multiply_by_rational(y - x, wy, total) {
            Some(share) => x + share,
            None => x,
        }
    } else {
        proof {
            lemma_weighted_mean_from_low(y as int, wy as int, x as int, wx as int);
        }
        match multiply_by_rational(x - y, wx, total) {
            Some(share) => y + share,
            None => y,
        }
    }
}

/// Splitting a sum into `count` whole parts and a rest, and dividing the
/// rest separately, gives the same quotient as dividing the sum.
pub proof fn lemma_mean_from_parts(whole: int, rest: int, count: int)
    requires
        0 < count,
    ensures
        (whole * count + rest) / count == whole + rest / count,
{
    lemma_hoist_over_denominator(rest, whole, count as nat);
}

/// The mean of `count` values, each at most `bound`, is at most `bound`.
pub proof fn lemma_mean_bounded(total: int, count: int, bound: int)
    requires
        0 < count,
        0 <= bound,
        0 <= total <= count * bound,
    ensures
        0 <= total / count <= bound,
{
    lemma_div_is_ordered(0, total, count);
    lemma_div_is_ordered(total, count * bound, count);
    assert(count * bound == bound * count) by (nonlinear_arith);
    lemma_div_by_multiple(bound, count);
}

} // verus!
