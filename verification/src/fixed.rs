use vstd::prelude::*;

verus! {

use vstd::arithmetic::div_mod::lemma_div_is_ordered;
use vstd::arithmetic::div_mod::lemma_div_multiples_vanish;
use vstd::arithmetic::div_mod::lemma_div_nonincreasing;
use vstd::arithmetic::div_mod::lemma_div_pos_is_pos;
use vstd::arithmetic::mul::lemma_mul_unary_negation;

/// Fixed-point scale: the value 1.0 is represented by this many units.
pub const FP: i64 = 65536;

/// Half of one unit (0.5 in fixed point), the pixel-centre offset.
pub const HALF: i64 = 32768;

/// Largest magnitude a raster-space coordinate handed to the rasterizer
/// may have; keeps every edge-function product inside `i64`.
pub const COORD_MAX: i64 = 1_000_000_000;

/// Largest magnitude a normalized-device coordinate handed to the
/// viewport transform may have (about 2.6 in fixed point), so that the
/// raster coordinate of the largest buffer still fits `COORD_MAX`.
pub const NDC_MAX: i64 = 170_000;

/// Truncating (round-toward-zero) signed division, the rounding used by
/// machine division; the spec operator `/` alone is Euclidean.
pub open spec fn tdiv(n: int, d: int) -> int {
    if n >= 0 && d > 0 {
        n / d
    } else if n < 0 && d > 0 {
        -((-n) / d)
    } else if n >= 0 {
        -(n / (-d))
    } else {
        (-n) / (-d)
    }
}

/// Truncating signed division on wide intermediates.
pub fn div_signed(n: i128, d: i128) -> (q: i128)
    requires
        d != 0,
        i128::MIN < n,
        i128::MIN < d,
    ensures
        q == tdiv(n as int, d as int),
{
    let nn: u128 = if n >= 0 {
        n as u128
    } else {
        (-n) as u128
    };
    let dd: u128 = if d >= 0 {
        d as u128
    } else {
        (-d) as u128
    };
    proof {
        lemma_div_nonincreasing(nn as int, dd as int);
        lemma_div_pos_is_pos(nn as int, dd as int);
    }
    let qq: u128 = nn / dd;
    if (n >= 0) == (d >= 0) {
        qq as i128
    } else {
        -(qq as i128)
    }
}

/// A quotient is no larger in magnitude than any bound the numerator is
/// a `d`-multiple of, and keeps the numerator's sign.
pub proof fn lemma_tdiv_bound(n: int, d: int, b: int)
    requires
        d > 0,
        0 <= b,
        -(d * b) <= n <= d * b,
    ensures
        -b <= tdiv(n, d) <= b,
        n >= 0 ==> tdiv(n, d) >= 0,
        n <= 0 ==> tdiv(n, d) <= 0,
{
    lemma_div_multiples_vanish(b, d);
    if n >= 0 {
        lemma_div_is_ordered(n, d * b, d);
        lemma_div_pos_is_pos(n, d);
    } else {
        lemma_div_is_ordered(-n, d * b, d);
        lemma_div_pos_is_pos(-n, d);
    }
}

/// A product of bounded factors is bounded by the product of the bounds.
pub proof fn lemma_abs_mul_bound(x: int, y: int, bx: int, by: int)
    by (nonlinear_arith)
    requires
        -bx <= x <= bx,
        -by <= y <= by,
    ensures
        -(bx * by) <= x * y <= bx * by,
{
}

/// Scaling a bounded value by a non-negative weight keeps it within the
/// weighted bound, and keeps its sign.
pub proof fn lemma_weighted_bound(w: int, v: int, b: int)
    by (nonlinear_arith)
    requires
        0 <= w,
        -b <= v <= b,
    ensures
        -(w * b) <= w * v <= w * b,
        v >= 0 ==> w * v >= 0,
{
}

/// Multiplying both sides of an inequality by a non-negative weight
/// preserves it.
pub proof fn lemma_mul_mono(w: int, u: int, v: int)
    by (nonlinear_arith)
    requires
        0 <= w,
        u <= v,
    ensures
        w * u <= w * v,
{
}

/// A common positive factor can be cancelled from an inequality.
pub proof fn lemma_mul_cancel_pos(u: int, v: int, c: int)
    by (nonlinear_arith)
    requires
        c > 0,
        u * c <= v * c,
    ensures
        u <= v,
{
}

/// Truncating division undoes multiplication: `tdiv(d * a, d) == a`.
pub proof fn lemma_tdiv_multiples_vanish(a: int, d: int)
    requires
        d > 0,
    ensures
        tdiv(d * a, d) == a,
{
    lemma_div_multiples_vanish(a, d);
    if d * a < 0 {
        lemma_mul_unary_negation(d, a);
        assert(d * (-a) == -(d * a));
        lemma_div_multiples_vanish(-a, d);
    }
}

/// A truncating quotient is no larger in magnitude than its numerator.
pub proof fn lemma_tdiv_abs_le(n: int, d: int)
    requires
        d != 0,
    ensures
        tdiv(n, d) <= (if n >= 0 { n } else { -n }),
        -(if n >= 0 { n } else { -n }) <= tdiv(n, d),
{
    let dd = if d > 0 { d } else { -d };
    if n >= 0 {
        lemma_div_nonincreasing(n, dd);
        lemma_div_pos_is_pos(n, dd);
    } else {
        lemma_div_nonincreasing(-n, dd);
        lemma_div_pos_is_pos(-n, dd);
    }
}

} // verus!
