//! Decimal fixed-point arithmetic on counts of millionths.
use vstd::prelude::*;

verus! {

/// Millionths in one whole unit.
pub const SCALE: i64 = 1_000_000;

/// The quotient `n / d` rounded to the nearest integer, halves away from zero.
pub open spec fn round_div(n: int, d: int) -> int
    recommends
        d > 0,
{
    if n >= 0 {
        (n + d / 2) / d
    } else {
        -((-n + d / 2) / d)
    }
}

/// The representable amount nearest to `x`.
pub open spec fn saturate(x: int) -> int {
    if x < i64::MIN {
        i64::MIN as int
    } else if x > i64::MAX {
        i64::MAX as int
    } else {
        x
    }
}

/// Whether `x` is representable, so that `saturate` leaves it as it is.
pub open spec fn representable(x: int) -> bool {
    i64::MIN <= x <= i64::MAX
}

/// 0.01, the distance within which a conversion there and back returns.
pub const TOLERANCE: i64 = 10_000;

/// Bound on the magnitude of the dividends that `divide_rounded` takes.
pub(crate) const DIVIDEND_MAX: i128 = 0x1_0000_0000_0000_0000_0000_0000;

/// `round_div` is nearest: its result times `d` is at most half of `d` away
/// from `n`.
pub proof fn lemma_round_div_nearest(n: int, d: int)
    requires
        d > 0,
    ensures
        -d <= 2 * (round_div(n, d) * d - n) <= d,
{
    let m = if n >= 0 {
        n
    } else {
        -n
    };
    let half = d / 2;
    let x = m + half;
    let q = x / d;
    let r = x % d;
    vstd::arithmetic::div_mod::lemma_fundamental_div_mod(x, d);
    vstd::arithmetic::div_mod::lemma_mod_bound(x, d);
    assert(q * d - m == half - r) by (nonlinear_arith)
        requires
            x == d * q + r,
            x == m + half,
    ;
    if n < 0 {
        assert((-q) * d == -(q * d)) by (nonlinear_arith);
    }
}

/// Divides with rounding to nearest, halves away from zero.
pub(crate) fn divide_rounded(n: i128, d: i128) -> (q: i128)
    requires
        0 < d <= DIVIDEND_MAX,
        -DIVIDEND_MAX <= n <= DIVIDEND_MAX,
    ensures
        q == round_div(n as int, d as int),
{
    let magnitude: i128 = if n < 0 {
        -n
    } else {
        n
    };
    let rounded: i128 = (magnitude + d / 2) / d;
    proof {
        vstd::arithmetic::div_mod::lemma_div_pos_is_pos(magnitude + d / 2, d as int);
        vstd::arithmetic::div_mod::lemma_div_nonincreasing(magnitude + d / 2, d as int);
    }
    if n < 0 {
        -rounded
    } else {
        rounded
    }
}

/// Narrows to 64 bits, stopping at the nearest bound.
pub(crate) fn saturated(x: i128) -> (r: i64)
    ensures
        r == saturate(x as int),
{
    if x < i64::MIN as i128 {
        i64::MIN
    } else if x > i64::MAX as i128 {
        i64::MAX
    } else {
        x as i64
    }
}

} // verus!
