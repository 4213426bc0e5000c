//! Arithmetic on thousandths.

use vstd::prelude::*;

verus! {

/// Steps per whole: 1000 steps make one world unit, one degree, one second.
pub const SCALE: i64 = 1000;

/// Largest magnitude of a coordinate, an angle or a speed that the steering and
/// selection rules accept. Products of three such values still fit 128 bits.
pub const LIMIT: i64 = 1_000_000_000_000;

/// `|v|`.
pub open spec fn magnitude(v: int) -> int {
    if v < 0 {
        -v
    } else {
        v
    }
}

/// Largest magnitude of a value that `map_value_to_range` accepts: a quarter
/// of the range of 64 bits, so that the product of two differences fits 128.
pub const MAP_LIMIT: i64 = 0x2000_0000_0000_0000;

/// `v` lies in `[-LIMIT, LIMIT]`.
pub open spec fn within_limit(v: int) -> bool {
    -LIMIT <= v <= LIMIT
}

/// Whether `v` lies in `[-LIMIT, LIMIT]`.
pub fn is_within_limit(v: i64) -> (within: bool)
    ensures
        within == within_limit(v as int),
{
    -LIMIT <= v && v <= LIMIT
}

/// `a / b` rounded toward zero; `0` where `b` is zero.
pub open spec fn quotient(a: int, b: int) -> int {
    if b > 0 {
        if a >= 0 {
            a / b
        } else {
            -((-a) / b)
        }
    } else if b < 0 {
        if a >= 0 {
            -(a / (-b))
        } else {
            (-a) / (-b)
        }
    } else {
        0
    }
}

/// The whole nearest to `v` thousandths, halves going away from zero.
pub open spec fn nearest_whole(v: int) -> int {
    if v >= 0 {
        (v + 500) / 1000
    } else {
        -((500 - v) / 1000)
    }
}

/// Division rounded toward zero, for either sign of the divisor.
pub fn divide(a: i128, b: i128) -> (q: i128)
    requires
        b != 0,
        i128::MIN < a,
        i128::MIN < b,
    ensures
        q == quotient(a as int, b as int),
{
    if b > 0 {
        a / b
    } else {
        (-a) / (-b)
    }
}

/// Rounds thousandths to the nearest whole, halves away from zero.
pub fn round_to_whole(v: i64) -> (whole: i64)
    ensures
        whole == nearest_whole(v as int),
{
    let wide: i128 = v as i128;
    if wide >= 0 {
        ((wide + 500) / 1000) as i64
    } else {
        (-((500 - wide) / 1000)) as i64
    }
}

/// A quotient is no larger in magnitude than its dividend.
pub proof fn lemma_quotient_magnitude(a: int, b: int)
    requires
        b != 0,
    ensures
        magnitude(quotient(a, b)) <= magnitude(a),
{
    let n = magnitude(a);
    let d = magnitude(b);
    assert(0 <= n / d <= n) by (nonlinear_arith)
        requires
            n >= 0,
            d > 0,
    ;
}

/// A quotient is no larger than its dividend, and has its sign or is zero.
pub proof fn lemma_quotient_bounds(a: int, b: int)
    requires
        b > 0,
    ensures
        magnitude(quotient(a, b)) <= magnitude(a),
        a >= 0 ==> 0 <= quotient(a, b) <= a,
        a <= 0 ==> a <= quotient(a, b) <= 0,
{
    if a >= 0 {
        assert(0 <= a / b <= a) by (nonlinear_arith)
            requires
                a >= 0,
                b > 0,
        ;
    } else {
        assert(0 <= (-a) / b <= -a) by (nonlinear_arith)
            requires
                a < 0,
                b > 0,
        ;
    }
}

} // verus!
