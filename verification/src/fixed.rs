//! Fixed-point scalars.
//!
//! Every length in this crate is a whole number of micrometres, and every
//! ratio is a quotient of integers, so each rule has one exact meaning.

use crate::algebra::{lemma_distribute_sub, lemma_scale_sign, lemma_square_monotonic, lemma_swap};
use vstd::arithmetic::div_mod::{
    lemma_div_is_ordered, lemma_div_multiples_vanish, lemma_div_pos_is_pos, lemma_remainder,
};
use vstd::prelude::*;

verus! {

/// Fixed-point units in one metre: a unit is one micrometre.
pub const UNIT: i64 = 1_000_000;

/// Largest magnitude of a coordinate: a thousand kilometres.
pub const COORD_LIMIT: i64 = 1_000_000_000_000;

/// The quotient of `a` by a positive `b`, rounded toward zero.
pub open spec fn div_toward_zero(a: int, b: int) -> int
    recommends
        b > 0,
{
    if a >= 0 {
        a / b
    } else {
        -((-a) / b)
    }
}

/// The magnitude of an integer.
pub open spec fn size(x: int) -> int {
    if x >= 0 {
        x
    } else {
        -x
    }
}

/// The floor of the square root of `n`.
pub open spec fn isqrt(n: nat) -> nat
    decreases n,
{
    if n == 0 {
        0
    } else {
        let r = isqrt((n - 1) as nat);
        if (r + 1) * (r + 1) <= n {
            r + 1
        } else {
            r
        }
    }
}

/// A quotient rounded toward zero lies between two bounds whenever the
/// dividend lies between their multiples.
pub proof fn lemma_div_toward_zero_between(a: int, d: int, lo: int, hi: int)
    requires
        d > 0,
        d * lo <= a <= d * hi,
    ensures
        lo <= div_toward_zero(a, d) <= hi,
{
    lemma_scale_sign(d, lo);
    lemma_scale_sign(d, hi);
    if a >= 0 {
        lemma_div_pos_is_pos(a, d);
        lemma_div_multiples_vanish(hi, d);
        lemma_div_is_ordered(a, d * hi, d);
        if lo > 0 {
            lemma_div_multiples_vanish(lo, d);
            lemma_div_is_ordered(d * lo, a, d);
        }
    } else {
        lemma_div_pos_is_pos(-a, d);
        lemma_distribute_sub(0, lo, d);
        lemma_distribute_sub(0, hi, d);
        lemma_div_multiples_vanish(-lo, d);
        lemma_div_is_ordered(-a, d * (-lo), d);
        if hi < 0 {
            lemma_div_multiples_vanish(-hi, d);
            lemma_div_is_ordered(d * (-hi), -a, d);
        }
    }
}

/// What division rounded toward zero leaves over is smaller than the
/// divisor and has the sign of the dividend.
pub proof fn lemma_div_toward_zero_remainder(a: int, d: int)
    requires
        d > 0,
    ensures
        a >= 0 ==> div_toward_zero(a, d) >= 0 && 0 <= a - d * div_toward_zero(a, d) < d,
        a <= 0 ==> div_toward_zero(a, d) <= 0 && -d < a - d * div_toward_zero(a, d) <= 0,
{
    if a >= 0 {
        lemma_remainder(a, d);
        lemma_swap(a / d, d);
        lemma_div_pos_is_pos(a, d);
    } else {
        lemma_remainder(-a, d);
        lemma_swap((-a) / d, d);
        lemma_distribute_sub(0, (-a) / d, d);
        lemma_div_pos_is_pos(-a, d);
    }
}

/// `isqrt(n)` is the one natural number whose square is at most `n` while the
/// square of its successor is not.
pub proof fn lemma_isqrt_bounds(n: nat)
    ensures
        isqrt(n) * isqrt(n) <= n < (isqrt(n) + 1) * (isqrt(n) + 1),
    decreases n,
{
    let s = isqrt(n);
    if n > 0 {
        lemma_isqrt_bounds((n - 1) as nat);
        let r = isqrt((n - 1) as nat);
        if (r + 1) * (r + 1) <= n {
            assert(s * s <= n < (s + 1) * (s + 1)) by (nonlinear_arith)
                requires
                    s == r + 1,
                    (r + 1) * (r + 1) <= n,
                    n - 1 < (r + 1) * (r + 1),
            ;
        } else {
            assert(s * s <= n < (s + 1) * (s + 1)) by (nonlinear_arith)
                requires
                    s == r,
                    r * r <= n - 1,
                    n < (r + 1) * (r + 1),
            ;
        }
    } else {
        assert(s * s <= n < (s + 1) * (s + 1)) by (nonlinear_arith)
            requires
                s == 0,
                n == 0,
        ;
    }
}

/// Whatever natural number brackets `n` between its square and the square of
/// its successor is `isqrt(n)`.
pub proof fn lemma_isqrt_unique(n: nat, r: nat)
    requires
        r * r <= n < (r + 1) * (r + 1),
    ensures
        isqrt(n) == r,
{
    let s = isqrt(n);
    lemma_isqrt_bounds(n);
    if r < s {
        lemma_square_monotonic(r as int + 1, s as int);
    } else if s < r {
        lemma_square_monotonic(s as int + 1, r as int);
    }
}

/// Computes the floor of the square root of `n` by bisection.
pub fn integer_sqrt(n: u128) -> (r: u64)
    ensures
        r == isqrt(n as nat),
{
    let mut lo: u128 = 0;
    let mut hi: u128 = 0x1_0000_0000_0000_0000;
    assert(n < hi * hi) by (nonlinear_arith)
        requires
            hi == 0x1_0000_0000_0000_0000,
            n <= u128::MAX,
    ;
    while hi - lo > 1
        invariant
            lo < hi <= 0x1_0000_0000_0000_0000,
            lo * lo <= n < hi * hi,
        decreases hi - lo,
    {
        let mid: u128 = lo + (hi - lo) / 2;
        assert(mid * mid <= 0xffff_ffff_ffff_ffff * 0xffff_ffff_ffff_ffff) by (nonlinear_arith)
            requires
                0 <= mid <= 0xffff_ffff_ffff_ffff,
        ;
        if mid * mid <= n {
            lo = mid;
        } else {
            hi = mid;
        }
    }
    proof {
        lemma_isqrt_unique(n as nat, lo as nat);
    }
    lo as u64
}

} // verus!
