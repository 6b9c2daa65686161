//! Facts of integer arithmetic that the proofs of this crate lean on.
//!
//! Each is small enough for the nonlinear solver to settle at once; the
//! proofs elsewhere combine them by linear reasoning alone.

use vstd::prelude::*;

verus! {

/// Squaring keeps the order of numbers that are not negative.
pub(crate) proof fn lemma_square_monotonic(a: int, b: int)
    by (nonlinear_arith)
    requires
        0 <= a <= b,
    ensures
        a * a <= b * b,
{
}

/// A product is bounded by the product of the bounds of its factors.
pub(crate) proof fn lemma_mul_bound(a: int, b: int, a_max: int, b_max: int)
    by (nonlinear_arith)
    requires
        -a_max <= a <= a_max,
        -b_max <= b <= b_max,
    ensures
        -(a_max * b_max) <= a * b <= a_max * b_max,
{
}

/// The factors of a product may change places.
pub(crate) proof fn lemma_swap(x: int, y: int)
    by (nonlinear_arith)
    ensures
        x * y == y * x,
{
}

/// The factors of a product of three may be grouped and ordered at will.
pub(crate) proof fn lemma_rotate(a: int, b: int, c: int)
    by (nonlinear_arith)
    ensures
        (a * b) * c == (c * b) * a,
        (a * b) * c == (a * c) * b,
        a * (b * c) == b * (a * c),
        a * (b * c) == (a * b) * c,
{
}

/// A product distributes over a difference.
pub(crate) proof fn lemma_distribute_sub(p: int, q: int, r: int)
    by (nonlinear_arith)
    ensures
        (p - q) * r == p * r - q * r,
        r * (p - q) == r * p - r * q,
{
}

/// The product of two differences, written out.
pub(crate) proof fn lemma_expand(a: int, b: int, c: int, d: int)
    by (nonlinear_arith)
    ensures
        (a - b) * (c - d) == a * c - a * d - b * c + b * d,
{
}

/// A product is zero exactly when a factor is.
pub(crate) proof fn lemma_zero_product(x: int, y: int)
    by (nonlinear_arith)
    ensures
        x * y == 0 <==> x == 0 || y == 0,
{
}

/// Scaling by a number that is not negative keeps an inequality.
pub(crate) proof fn lemma_scale_inequality(a: int, b: int, c: int)
    by (nonlinear_arith)
    requires
        a <= b,
        c >= 0,
    ensures
        c * a <= c * b,
{
}

/// Scaling by a positive number keeps the sign.
pub(crate) proof fn lemma_scale_sign(d: int, x: int)
    by (nonlinear_arith)
    requires
        d > 0,
    ensures
        x >= 0 ==> d * x >= 0,
        x > 0 ==> d * x > 0,
        x <= 0 ==> d * x <= 0,
        x < 0 ==> d * x < 0,
{
}

/// Squaring keeps the strict order of numbers that are not negative.
pub(crate) proof fn lemma_square_strictly_monotonic(a: int, b: int)
    by (nonlinear_arith)
    requires
        0 <= a < b,
    ensures
        a * a < b * b,
{
}

/// The square of a product is the product of the squares.
pub(crate) proof fn lemma_square_of_product(x: int, y: int)
    by (nonlinear_arith)
    ensures
        (x * y) * (x * y) == (x * x) * (y * y),
{
}

/// A number and its opposite have the same square, which is not negative.
pub(crate) proof fn lemma_square_of_opposite(x: int)
    by (nonlinear_arith)
    ensures
        (-x) * (-x) == x * x,
        x * x >= 0,
{
}

/// The square of a successor, written out.
pub(crate) proof fn lemma_square_of_successor(x: int)
    by (nonlinear_arith)
    ensures
        (x + 1) * (x + 1) == x * x + 2 * x + 1,
{
}

/// Scaling by a positive number keeps a strict inequality.
pub(crate) proof fn lemma_scale_strict_inequality(a: int, b: int, c: int)
    by (nonlinear_arith)
    requires
        a < b,
        c > 0,
    ensures
        c * a < c * b,
{
}

/// A product distributes over a sum of three.
pub(crate) proof fn lemma_distribute_three(p: int, q: int, r: int, x: int)
    by (nonlinear_arith)
    ensures
        (p + q + r) * x == p * x + q * x + r * x,
        x * (p + q + r) == x * p + x * q + x * r,
{
}

/// The square of a difference, written out.
pub(crate) proof fn lemma_square_of_difference(p: int, q: int)
    by (nonlinear_arith)
    ensures
        (p - q) * (p - q) == p * p - 2 * (p * q) + q * q,
        (p - q) * (p - q) >= 0,
{
}

/// The factors of a product of two products may pair up the other way.
pub(crate) proof fn lemma_regroup(a: int, b: int, c: int, d: int)
    ensures
        (a * d) * (b * c) == (a * c) * (b * d),
{
    lemma_rotate(a, d, b * c);
    lemma_rotate(d, b, c);
    lemma_rotate(a, c, b * d);
    lemma_rotate(c, b, d);
    lemma_swap(d, b);
    lemma_swap(d * b, c);
    lemma_swap(c, b * d);
}

/// The square of a difference of two products, written out.
pub(crate) proof fn lemma_square_of_minor(a: int, b: int, c: int, d: int)
    ensures
        (a * d - b * c) * (a * d - b * c) == (a * a) * (d * d) - 2 * ((a * c) * (b * d)) + (b * b)
            * (c * c),
        (a * d - b * c) * (a * d - b * c) >= 0,
{
    lemma_square_of_difference(a * d, b * c);
    lemma_square_of_product(a, d);
    lemma_square_of_product(b, c);
    lemma_regroup(a, b, c, d);
}

/// The square of a sum of three, written out.
pub(crate) proof fn lemma_square_of_sum_of_three(p: int, q: int, r: int)
    by (nonlinear_arith)
    ensures
        (p + q + r) * (p + q + r) == p * p + q * q + r * r + 2 * (p * q) + 2 * (p * r) + 2 * (q
            * r),
{
}

} // verus!
