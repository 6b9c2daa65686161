//! Scaling a displacement to unit length.
//!
//! A displacement of any size is first brought to a size at which its length
//! can be told to a millionth, then divided by that length. What comes out
//! is a unit vector up to the rounding of its coordinates.

use crate::algebra::{
    lemma_distribute_sub, lemma_distribute_three, lemma_mul_bound, lemma_rotate,
    lemma_scale_inequality, lemma_scale_sign, lemma_scale_strict_inequality,
    lemma_square_monotonic, lemma_square_of_opposite, lemma_square_of_product,
    lemma_square_of_successor, lemma_square_strictly_monotonic, lemma_swap,
};
use crate::fixed::{
    div_toward_zero, integer_sqrt, lemma_div_toward_zero_between,
    lemma_div_toward_zero_remainder, lemma_isqrt_bounds, size, UNIT,
};
use crate::vec3::{
    lemma_coordinates_within_length, lemma_length_bound, lemma_norm_sq_nonnegative,
    squared_length, Direction, Vector, SPAN_LIMIT,
};
use vstd::prelude::*;

verus! {

/// A displacement with no coordinate beyond this is scaled up by `UNIT`
/// before its length is taken.
pub const SMALL_LIMIT: i128 = 100_000_000_000;

/// A displacement with a coordinate beyond `SPAN_LIMIT` is scaled down by
/// this before its length is taken.
pub const REDUCTION: i128 = 10_000_000;

/// Largest magnitude of a coordinate that `unit_vector` accepts.
pub(crate) const WIDE_LIMIT: i128 = 8_000_000_000_000_000_000_000_000;

/// The displacement `v` brought to working size: scaled up where it is
/// small, scaled down and rounded toward zero where it is large.
pub open spec fn rescaled(v: Vector) -> Vector {
    if v.within(SMALL_LIMIT as int) {
        Vector { x: v.x * UNIT, y: v.y * UNIT, z: v.z * UNIT }
    } else if v.within(SPAN_LIMIT as int) {
        v
    } else {
        Vector {
            x: div_toward_zero(v.x, REDUCTION as int),
            y: div_toward_zero(v.y, REDUCTION as int),
            z: div_toward_zero(v.z, REDUCTION as int),
        }
    }
}

/// The displacement `m` divided by its length, in units of `UNIT`, each
/// coordinate rounded toward zero; none where the length rounds to zero.
pub open spec fn normalized(m: Vector) -> Option<Vector> {
    let len = m.length() as int;
    if len == 0 {
        None
    } else {
        Some(
            Vector {
                x: div_toward_zero(m.x * UNIT, len),
                y: div_toward_zero(m.y * UNIT, len),
                z: div_toward_zero(m.z * UNIT, len),
            },
        )
    }
}

/// The direction of `v`: `v` scaled to a length of `UNIT`. The zero
/// displacement has none.
pub open spec fn unit_of(v: Vector) -> Option<Vector> {
    normalized(rescaled(v))
}

/// Whether `d` is a unit vector up to the rounding of its coordinates: none
/// of them exceeds `UNIT`, and its length is within four micrometres of it.
pub open spec fn nearly_unit(d: Vector) -> bool {
    &&& d.within(UNIT as int)
    &&& (UNIT - 4) * (UNIT - 4) < d.norm_sq() < (UNIT + 1) * (UNIT + 1)
}

/// The opposite of a direction that may be missing.
pub open spec fn reversed(d: Option<Vector>) -> Option<Vector> {
    match d {
        Some(v) => Some(v.negated()),
        None => None,
    }
}

/// Only the zero displacement has no direction.
pub proof fn lemma_unit_of_none_iff_zero(v: Vector)
    ensures
        unit_of(v) is None <==> v == (Vector { x: 0, y: 0, z: 0 }),
{
    lemma_coordinates_within_length(rescaled(v));
}

/// The opposite displacement has the opposite direction.
pub proof fn lemma_unit_of_negated(v: Vector)
    ensures
        unit_of(v.negated()) == reversed(unit_of(v)),
{
    let m = rescaled(v);
    let w = rescaled(v.negated());
    assert(w == m.negated());
    lemma_square_of_opposite(m.x);
    lemma_square_of_opposite(m.y);
    lemma_square_of_opposite(m.z);
    assert(w.norm_sq() == m.norm_sq());
}

/// Computes the direction of the displacement `(x, y, z)`.
pub(crate) fn unit_vector(x: i128, y: i128, z: i128) -> (r: Option<Direction>)
    requires
        (Vector { x: x as int, y: y as int, z: z as int }).within(WIDE_LIMIT as int),
    ensures
        r is Some <==> unit_of(Vector { x: x as int, y: y as int, z: z as int }) is Some,
        r matches Some(d) ==> unit_of(Vector { x: x as int, y: y as int, z: z as int }) == Some(
            d@,
        ) && nearly_unit(d@),
{
    let ghost v = Vector { x: x as int, y: y as int, z: z as int };
    proof {
        lemma_unit_of_length(v);
    }
    let small = -SMALL_LIMIT <= x && x <= SMALL_LIMIT && -SMALL_LIMIT <= y && y <= SMALL_LIMIT
        && -SMALL_LIMIT <= z && z <= SMALL_LIMIT;
    let medium = -SPAN_LIMIT <= x && x <= SPAN_LIMIT && -SPAN_LIMIT <= y && y <= SPAN_LIMIT
        && -SPAN_LIMIT <= z && z <= SPAN_LIMIT;
    let (mx, my, mz): (i128, i128, i128) = if small {
        (x * (UNIT as i128), y * (UNIT as i128), z * (UNIT as i128))
    } else if medium {
        (x, y, z)
    } else {
        (x / REDUCTION, y / REDUCTION, z / REDUCTION)
    };
    let ghost m = Vector { x: mx as int, y: my as int, z: mz as int };
    assert(m == rescaled(v));
    let len = integer_sqrt(squared_length(mx, my, mz));
    proof {
        lemma_coordinates_within_length(m);
        lemma_length_bound(m, SPAN_LIMIT as int);
    }
    if len == 0 {
        return None;
    }
    let len: i128 = len as i128;
    proof {
        lemma_mul_bound(mx as int, UNIT as int, len as int, UNIT as int);
        lemma_mul_bound(my as int, UNIT as int, len as int, UNIT as int);
        lemma_mul_bound(mz as int, UNIT as int, len as int, UNIT as int);
        lemma_mul_bound(len as int, UNIT as int, 2 * SPAN_LIMIT, UNIT as int);
        lemma_distribute_sub(0, UNIT as int, len as int);
        lemma_div_toward_zero_between(mx * UNIT, len as int, -UNIT, UNIT as int);
        lemma_div_toward_zero_between(my * UNIT, len as int, -UNIT, UNIT as int);
        lemma_div_toward_zero_between(mz * UNIT, len as int, -UNIT, UNIT as int);
    }
    let dx: i128 = mx * (UNIT as i128) / len;
    let dy: i128 = my * (UNIT as i128) / len;
    let dz: i128 = mz * (UNIT as i128) / len;
    Direction::new(dx as i64, dy as i64, dz as i64)
}

/// A displacement is at least as long as each of its coordinates, even
/// after its length is rounded down.
pub proof fn lemma_length_covers_coordinates(m: Vector)
    ensures
        m.length() >= size(m.x),
        m.length() >= size(m.y),
        m.length() >= size(m.z),
{
    lemma_coordinates_within_length(m);
}

/// A displacement that is not zero is at least `UNIT` long once it is
/// brought to working size.
pub proof fn lemma_rescaled_is_long(v: Vector)
    requires
        v != (Vector { x: 0, y: 0, z: 0 }),
    ensures
        rescaled(v).length() >= UNIT,
{
    lemma_length_covers_coordinates(rescaled(v));
}

/// What `c` times `k` over `len`, rounded toward zero, is to `c`: no more
/// once both are squared and scaled alike, and more once its magnitude is
/// raised by one.
pub proof fn lemma_scaled_coordinate(c: int, k: int, len: int)
    requires
        len > 0,
    ensures
        ({
            let q = div_toward_zero(c * k, len);
            &&& (len * len) * (q * q) <= (k * k) * (c * c)
            &&& (k * k) * (c * c) < (len * len) * ((size(q) + 1) * (size(q) + 1))
        }),
{
    let a = c * k;
    let q = div_toward_zero(a, len);
    lemma_div_toward_zero_remainder(a, len);
    lemma_square_of_product(len, q);
    lemma_square_of_product(c, k);
    lemma_swap(c * c, k * k);
    lemma_square_of_product(len, size(q) + 1);
    lemma_distribute_three(q, 1, 0, len);
    lemma_distribute_three(-q, 1, 0, len);
    lemma_distribute_sub(0, q, len);
    lemma_distribute_sub(0, len * q, 1);
    if a >= 0 {
        lemma_scale_sign(len, q);
        lemma_square_monotonic(len * q, a);
        lemma_square_strictly_monotonic(a, len * (size(q) + 1));
    } else {
        lemma_scale_sign(len, q);
        lemma_square_monotonic(-(len * q), -a);
        lemma_square_of_opposite(len * q);
        lemma_square_of_opposite(a);
        lemma_square_strictly_monotonic(-a, len * (size(q) + 1));
    }
}

/// What is at most `UNIT` squared times `n` once scaled by the square of
/// `len`, with `n` under the square of `len + 1`, is under the square of
/// `UNIT + 1`.
proof fn lemma_squares_bounded_above(len: int, d: int, n: int)
    requires
        len >= UNIT,
        d >= 0,
        (len * len) * d <= (UNIT * UNIT) * n,
        n < (len + 1) * (len + 1),
    ensures
        d < (UNIT + 1) * (UNIT + 1),
{
    if d >= (UNIT + 1) * (UNIT + 1) {
        lemma_square_of_opposite(len);
        lemma_scale_inequality((UNIT + 1) * (UNIT + 1), d, len * len);
        lemma_square_of_product(len, UNIT + 1);
        lemma_square_of_product(UNIT as int, len + 1);
        lemma_distribute_three(UNIT as int, 1, 0, len);
        lemma_distribute_three(len, 1, 0, UNIT as int);
        lemma_swap(len, UNIT as int);
        lemma_square_monotonic(UNIT * (len + 1), len * (UNIT + 1));
        lemma_scale_strict_inequality(n, (len + 1) * (len + 1), UNIT * UNIT);
    }
}

/// What exceeds `UNIT` squared times `n` once scaled by the square of
/// `len`, with `n` at least the square of `len`, exceeds the square of `UNIT`.
proof fn lemma_squares_bounded_below(len: int, s: int, n: int)
    requires
        len > 0,
        (UNIT * UNIT) * n < (len * len) * s,
        n >= len * len,
    ensures
        s > UNIT * UNIT,
{
    if s <= UNIT * UNIT {
        lemma_square_of_opposite(len);
        lemma_scale_inequality(s, UNIT * UNIT, len * len);
        lemma_scale_inequality(len * len, n, UNIT * UNIT);
        lemma_swap(len * len, UNIT * UNIT);
    }
}

/// The direction of a displacement is a unit vector up to the rounding of
/// its coordinates.
pub proof fn lemma_unit_of_length(v: Vector)
    ensures
        unit_of(v) matches Some(d) ==> nearly_unit(d),
{
    if unit_of(v) is Some {
        let m = rescaled(v);
        let len = m.length() as int;
        let d = unit_of(v)->0;
        lemma_unit_of_none_iff_zero(v);
        lemma_rescaled_is_long(v);
        lemma_isqrt_bounds(m.norm_sq() as nat);
        lemma_norm_sq_nonnegative(m);
        lemma_norm_sq_nonnegative(d);
        lemma_coordinates_within_length(m);
        lemma_mul_bound(m.x, UNIT as int, len, UNIT as int);
        lemma_mul_bound(m.y, UNIT as int, len, UNIT as int);
        lemma_mul_bound(m.z, UNIT as int, len, UNIT as int);
        lemma_distribute_sub(0, UNIT as int, len);
        lemma_div_toward_zero_between(m.x * UNIT, len, -UNIT, UNIT as int);
        lemma_div_toward_zero_between(m.y * UNIT, len, -UNIT, UNIT as int);
        lemma_div_toward_zero_between(m.z * UNIT, len, -UNIT, UNIT as int);
        lemma_scaled_coordinate(m.x, UNIT as int, len);
        lemma_scaled_coordinate(m.y, UNIT as int, len);
        lemma_scaled_coordinate(m.z, UNIT as int, len);
        let sx = (size(d.x) + 1) * (size(d.x) + 1);
        let sy = (size(d.y) + 1) * (size(d.y) + 1);
        let sz = (size(d.z) + 1) * (size(d.z) + 1);
        lemma_distribute_three(d.x * d.x, d.y * d.y, d.z * d.z, len * len);
        lemma_distribute_three(m.x * m.x, m.y * m.y, m.z * m.z, UNIT * UNIT);
        lemma_distribute_three(sx, sy, sz, len * len);
        lemma_squares_bounded_above(len, d.norm_sq(), m.norm_sq());
        lemma_squares_bounded_below(len, sx + sy + sz, m.norm_sq());
        lemma_square_of_successor(size(d.x));
        lemma_square_of_successor(size(d.y));
        lemma_square_of_successor(size(d.z));
        lemma_square_of_opposite(d.x);
        lemma_square_of_opposite(d.y);
        lemma_square_of_opposite(d.z);
        assert(UNIT * UNIT == 1_000_000_000_000) by (nonlinear_arith)
            requires
                UNIT == 1_000_000,
        ;
        assert((UNIT - 4) * (UNIT - 4) == 999_992_000_016) by (nonlinear_arith)
            requires
                UNIT == 1_000_000,
        ;
    }
}

/// The sum of the magnitudes of the coordinates.
pub open spec fn taxicab(u: Vector) -> int {
    size(u.x) + size(u.y) + size(u.z)
}

/// Three numbers of bounded magnitude, weighted by the coordinates of `u`,
/// sum to no more than the bound times the taxicab length of `u`.
proof fn lemma_weighted_rounding(rx: int, ry: int, rz: int, u: Vector, bound: int)
    requires
        -bound <= rx <= bound,
        -bound <= ry <= bound,
        -bound <= rz <= bound,
    ensures
        size(rx * u.x + ry * u.y + rz * u.z) <= bound * taxicab(u),
{
    lemma_mul_bound(rx, u.x, bound, size(u.x));
    lemma_mul_bound(ry, u.y, bound, size(u.y));
    lemma_mul_bound(rz, u.z, bound, size(u.z));
    lemma_distribute_three(size(u.x), size(u.y), size(u.z), bound);
}

/// A number whose multiple is small is small.
proof fn lemma_cancel_scale(k: int, x: int, limit: int)
    requires
        k > 0,
        limit >= 0,
        size(k * x) < k * (limit + 1),
    ensures
        size(x) <= limit,
{
    if size(x) >= limit + 1 {
        lemma_scale_inequality(limit + 1, size(x), k);
        lemma_distribute_sub(0, x, k);
        lemma_scale_sign(k, x);
    }
}

/// The scalar product of what division left of three products with `u`.
proof fn lemma_dot_of_quotients(a: Vector, q: Vector, u: Vector, k: int)
    ensures
        k * q.dot(u) == a.dot(u) - ((a.x - k * q.x) * u.x + (a.y - k * q.y) * u.y + (a.z - k
            * q.z) * u.z),
{
    lemma_distribute_three(q.x * u.x, q.y * u.y, q.z * u.z, k);
    lemma_rotate(k, q.x, u.x);
    lemma_rotate(k, q.y, u.y);
    lemma_rotate(k, q.z, u.z);
    lemma_distribute_sub(a.x, k * q.x, u.x);
    lemma_distribute_sub(a.y, k * q.y, u.y);
    lemma_distribute_sub(a.z, k * q.z, u.z);
}

/// Scaling a displacement scales its scalar products.
proof fn lemma_dot_of_scaled(m: Vector, u: Vector, k: int)
    ensures
        (Vector { x: m.x * k, y: m.y * k, z: m.z * k }).dot(u) == k * m.dot(u),
{
    lemma_distribute_three(m.x * u.x, m.y * u.y, m.z * u.z, k);
    lemma_rotate(m.x, k, u.x);
    lemma_rotate(m.y, k, u.y);
    lemma_rotate(m.z, k, u.z);
    lemma_swap(m.x * u.x, k);
    lemma_swap(m.y * u.y, k);
    lemma_swap(m.z * u.z, k);
}

/// Bringing a displacement to working size all but keeps what it is at
/// right angles to.
proof fn lemma_rescaled_nearly_orthogonal(v: Vector, u: Vector)
    requires
        v.dot(u) == 0,
    ensures
        size(rescaled(v).dot(u)) <= taxicab(u),
{
    let m = rescaled(v);
    if v.within(SMALL_LIMIT as int) {
        lemma_dot_of_scaled(v, u, UNIT as int);
    } else if v.within(SPAN_LIMIT as int) {
    } else {
        let k = REDUCTION as int;
        lemma_div_toward_zero_remainder(v.x, k);
        lemma_div_toward_zero_remainder(v.y, k);
        lemma_div_toward_zero_remainder(v.z, k);
        lemma_dot_of_quotients(v, m, u, k);
        lemma_weighted_rounding(v.x - k * m.x, v.y - k * m.y, v.z - k * m.z, u, k - 1);
        lemma_distribute_sub(k, 1, taxicab(u));
        lemma_distribute_three(taxicab(u), 1, 0, k);
        lemma_cancel_scale(k, m.dot(u), taxicab(u));
    }
}

/// A direction is at right angles to what its displacement is at right
/// angles to, up to the rounding of its coordinates.
pub proof fn lemma_unit_of_nearly_orthogonal(v: Vector, u: Vector)
    requires
        v.dot(u) == 0,
    ensures
        unit_of(v) matches Some(d) ==> size(d.dot(u)) <= 2 * taxicab(u),
{
    if unit_of(v) is Some {
        let m = rescaled(v);
        let len = m.length() as int;
        let d = unit_of(v)->0;
        let t = taxicab(u);
        lemma_unit_of_none_iff_zero(v);
        lemma_rescaled_is_long(v);
        lemma_rescaled_nearly_orthogonal(v, u);
        let a = Vector { x: m.x * UNIT, y: m.y * UNIT, z: m.z * UNIT };
        lemma_dot_of_scaled(m, u, UNIT as int);
        lemma_div_toward_zero_remainder(a.x, len);
        lemma_div_toward_zero_remainder(a.y, len);
        lemma_div_toward_zero_remainder(a.z, len);
        lemma_dot_of_quotients(a, d, u, len);
        lemma_weighted_rounding(a.x - len * d.x, a.y - len * d.y, a.z - len * d.z, u, len - 1);
        lemma_mul_bound(UNIT as int, m.dot(u), UNIT as int, t);
        lemma_scale_inequality(UNIT as int, len, t);
        lemma_swap(t, UNIT as int);
        lemma_swap(t, len);
        lemma_distribute_sub(len, 1, t);
        lemma_distribute_three(2 * t, 1, 0, len);
        lemma_rotate(len, 2, t);
        lemma_cancel_scale(len, d.dot(u), 2 * t);
    }
}

} // verus!
