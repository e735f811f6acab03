//! Q32 fixed-point arithmetic: the number representation every component of
//! the voice engine computes in, together with the few lemmas the components
//! need about truncating division.

use vstd::arithmetic::div_mod::{
    lemma_div_is_ordered, lemma_div_multiples_vanish, lemma_div_pos_is_pos,
    lemma_fundamental_div_mod, lemma_mod_division_less_than_divisor,
};
use vstd::prelude::*;

verus! {

/// One in Q32 fixed point (2^32). Samples, phases, envelope levels,
/// frequencies in Hz and times in seconds are `i64` values scaled by this.
pub const FP_ONE: i64 = 4294967296;

/// One half in Q32 fixed point.
pub const FP_HALF: i64 = 2147483648;

/// Two pi in Q32 fixed point, rounded to the nearest integer.
pub const TWO_PI_FP: i64 = 26986075409;

/// Truncating division: the quotient of `a` by `d`, rounded toward zero.
/// Division of signed signal values in this crate is stated with it.
pub open spec fn tdiv(a: int, d: int) -> int {
    if a >= 0 {
        a / d
    } else {
        -((-a) / d)
    }
}

/// The Q32 fixed-point product of `a` and `b`, rounded toward zero.
pub open spec fn fp_mul(a: int, b: int) -> int {
    tdiv(a * b, FP_ONE as int)
}

/// `v` clamped into `[lo, hi]`.
pub open spec fn clamp_fp(v: int, lo: int, hi: int) -> int {
    if v < lo {
        lo
    } else if v > hi {
        hi
    } else {
        v
    }
}

/// The magnitude of `x` as a `u64`.
pub fn abs_u64(x: i64) -> (r: u64)
    ensures
        x >= 0 ==> r == x,
        x < 0 ==> r as int == -(x as int),
{
    if x >= 0 {
        x as u64
    } else {
        let wide: i128 = -(x as i128);
        wide as u64
    }
}

/// `v` clamped into `[lo, hi]`.
pub fn clamp_i64(v: i64, lo: i64, hi: i64) -> (r: i64)
    requires
        lo <= hi,
    ensures
        r as int == clamp_fp(v as int, lo as int, hi as int),
{
    if v < lo {
        lo
    } else if v > hi {
        hi
    } else {
        v
    }
}

/// Truncating division stays within `[-b, b]` when the dividend is within
/// `[-b*d, b*d]`.
pub proof fn lemma_tdiv_range(a: int, d: int, b: int)
    requires
        0 < d,
        0 <= b,
        -(b * d) <= a <= b * d,
    ensures
        -b <= tdiv(a, d) <= b,
{
    lemma_div_multiples_vanish(b, d);
    assert((d * b) / d == b);
    assert(b * d == d * b);
    if a >= 0 {
        lemma_div_pos_is_pos(a, d);
        lemma_div_is_ordered(a, b * d, d);
        assert(a / d <= b);
    } else {
        lemma_div_pos_is_pos(-a, d);
        lemma_div_is_ordered(-a, b * d, d);
        assert((-a) / d <= b);
    }
}

/// Truncating division by a positive divisor is monotone.
pub proof fn lemma_tdiv_mono(a1: int, a2: int, d: int)
    requires
        0 < d,
        a1 <= a2,
    ensures
        tdiv(a1, d) <= tdiv(a2, d),
{
    if a1 >= 0 {
        lemma_div_is_ordered(a1, a2, d);
    } else if a2 >= 0 {
        lemma_div_pos_is_pos(-a1, d);
        lemma_div_pos_is_pos(a2, d);
    } else {
        lemma_div_is_ordered(-a2, -a1, d);
    }
}

/// For nonnegative dividends, dividing two values separately loses at most
/// as much as dividing their sum.
pub proof fn lemma_div_superadd(u: int, v: int, d: int)
    requires
        0 <= u,
        0 <= v,
        0 < d,
    ensures
        u / d + v / d <= (u + v) / d,
{
    lemma_fundamental_div_mod(u, d);
    lemma_fundamental_div_mod(v, d);
    lemma_mod_division_less_than_divisor(u, d);
    lemma_mod_division_less_than_divisor(v, d);
    let q: int = u / d + v / d;
    assert(d * (u / d + v / d) == d * (u / d) + d * (v / d)) by (nonlinear_arith);
    assert(d * q <= u + v);
    lemma_div_pos_is_pos(u, d);
    lemma_div_pos_is_pos(v, d);
    lemma_div_is_ordered(d * q, u + v, d);
    lemma_div_multiples_vanish(q, d);
}

/// Multiplying by a Q32 factor in `[0, 1]` keeps a value within its bound.
pub proof fn lemma_fp_mul_unit_bound(x: int, k: int, b: int)
    requires
        -b <= x <= b,
        0 <= k <= FP_ONE as int,
        0 <= b,
    ensures
        -b <= fp_mul(x, k) <= b,
{
    assert(-(b * (FP_ONE as int)) <= x * k <= b * (FP_ONE as int)) by (nonlinear_arith)
        requires
            -b <= x <= b,
            0 <= k <= FP_ONE as int,
            0 <= b,
    ;
    lemma_tdiv_range(x * k, FP_ONE as int, b);
}

/// A convex blend `x*k + y*(1-k)` in Q32 (with truncating products) stays
/// within the common bound of `x` and `y`.
pub proof fn lemma_fp_blend_bound(x: int, y: int, k: int, b: int)
    requires
        -b <= x <= b,
        -b <= y <= b,
        0 <= k <= FP_ONE as int,
        0 <= b,
    ensures
        -b <= fp_mul(x, k) + fp_mul(y, FP_ONE as int - k) <= b,
{
    let s: int = FP_ONE as int;
    let k2: int = s - k;
    assert(-(b * k) <= x * k <= b * k && -(b * k2) <= y * k2 <= b * k2 && 0 <= b * k && 0 <= b
        * k2) by (nonlinear_arith)
        requires
            -b <= x <= b,
            -b <= y <= b,
            0 <= k,
            0 <= k2,
            0 <= b,
    ;
    lemma_tdiv_mono(x * k, b * k, s);
    lemma_tdiv_mono(-(b * k), x * k, s);
    lemma_tdiv_mono(y * k2, b * k2, s);
    lemma_tdiv_mono(-(b * k2), y * k2, s);
    lemma_div_superadd(b * k, b * k2, s);
    assert(b * k + b * k2 == b * s) by (nonlinear_arith)
        requires
            k2 == s - k,
    ;
    lemma_div_multiples_vanish(b, s);
    lemma_div_pos_is_pos(b * k, s);
    lemma_div_pos_is_pos(b * k2, s);
}

/// The Q32 product of two fixed-point values, exact per [`fp_mul`].
pub fn mul_fp(a: i64, b: i64) -> (r: i64)
    requires
        -0x400000000000000000000000 <= (a as int) * (b as int) <= 0x400000000000000000000000,
    ensures
        r as int == fp_mul(a as int, b as int),
{
    let ua: u128 = abs_u64(a) as u128;
    let ub: u128 = abs_u64(b) as u128;
    proof {
        assert((ua as int) * (ub as int) < 0x100000000000000000000000000000000)
            by (nonlinear_arith)
            requires
                ua <= 0xFFFFFFFFFFFFFFFF,
                ub <= 0xFFFFFFFFFFFFFFFF,
        ;
    }
    let p: u128 = ua * ub;
    proof {
        assert({
            &&& (a as int) * (b as int) >= 0 ==> (ua as int) * (ub as int) == (a as int) * (
            b as int)
            &&& (a as int) * (b as int) < 0 ==> (ua as int) * (ub as int) == -((a as int) * (
            b as int))
            &&& ((a < 0) == (b < 0)) ==> (a as int) * (b as int) >= 0
            &&& ((a < 0) != (b < 0)) ==> (a as int) * (b as int) <= 0
        }) by (nonlinear_arith)
            requires
                (a >= 0 ==> ua as int == a as int),
                (a < 0 ==> ua as int == -(a as int)),
                (b >= 0 ==> ub as int == b as int),
                (b < 0 ==> ub as int == -(b as int)),
        ;
    }
    let q: u128 = p / 4294967296u128;
    proof {
        lemma_div_is_ordered(p as int, 0x400000000000000000000000, 4294967296);
        lemma_div_pos_is_pos(p as int, 4294967296);
    }
    if (a < 0) != (b < 0) {
        -(q as i64)
    } else {
        q as i64
    }
}

} // verus!
