//! A steady pick point and facing from three landmarks of a hand.
//!
//! The three landmarks span a triangle. Its pick point is the mean of two
//! weighted centres, which damps the jitter of any one landmark; its facing is
//! the unit normal of its plane, whose sense follows the winding of the
//! landmarks.

use crate::algebra::{
    lemma_distribute_sub, lemma_distribute_three, lemma_expand, lemma_mul_bound, lemma_rotate,
    lemma_scale_inequality, lemma_swap, lemma_zero_product,
};
use crate::fixed::{div_toward_zero, lemma_div_toward_zero_between, size, COORD_LIMIT};
use crate::unit::{
    lemma_unit_of_length, lemma_unit_of_nearly_orthogonal, lemma_unit_of_negated,
    lemma_unit_of_none_iff_zero, nearly_unit, reversed, taxicab, unit_of, unit_vector,
};
use crate::vec3::{Direction, Vec3, Vector};
use vstd::prelude::*;

verus! {

/// The mean of `a`, `b` and `c` with the weights `wa`, `wb` and `wc`, each
/// coordinate rounded toward zero; `fallback` where the weights sum to nothing.
pub open spec fn weighted_mean(
    wa: int,
    wb: int,
    wc: int,
    a: Vector,
    b: Vector,
    c: Vector,
    fallback: Vector,
) -> Vector {
    let total = wa + wb + wc;
    if total <= 0 {
        fallback
    } else {
        Vector {
            x: div_toward_zero(wa * a.x + wb * b.x + wc * c.x, total),
            y: div_toward_zero(wa * a.y + wb * b.y + wc * c.y, total),
            z: div_toward_zero(wa * a.z + wb * b.z + wc * c.z, total),
        }
    }
}

/// The first estimate: each corner weighted by the squared length of the
/// side opposite to it. Where the three corners coincide it is that corner.
pub open spec fn first_estimate(a: Vector, b: Vector, c: Vector) -> Vector {
    weighted_mean(b.dist_sq(c), c.dist_sq(a), a.dist_sq(b), a, b, c, a)
}

/// The second estimate: each corner weighted by its own squared distance to
/// the first estimate.
pub open spec fn second_estimate(a: Vector, b: Vector, c: Vector) -> Vector {
    let first = first_estimate(a, b, c);
    weighted_mean(a.dist_sq(first), b.dist_sq(first), c.dist_sq(first), a, b, c, first)
}

/// Halfway from `from` to `to`, each coordinate rounded toward `from`.
pub open spec fn halfway(from: Vector, to: Vector) -> Vector {
    Vector {
        x: from.x + div_toward_zero(to.x - from.x, 2),
        y: from.y + div_toward_zero(to.y - from.y, 2),
        z: from.z + div_toward_zero(to.z - from.z, 2),
    }
}

/// The pick point of the triangle: halfway from the second estimate to the
/// first.
pub open spec fn pick_point(a: Vector, b: Vector, c: Vector) -> Vector {
    halfway(second_estimate(a, b, c), first_estimate(a, b, c))
}

/// The normal of the triangle's plane, by the right-hand rule on the winding
/// `a`, `b`, `c`. Its length is twice the triangle's area: it is zero exactly
/// when the corners lie on one line.
pub open spec fn triangle_normal(a: Vector, b: Vector, c: Vector) -> Vector {
    b.minus(a).cross(c.minus(a))
}

/// The facing of the triangle: its normal scaled to a length of `UNIT`. A
/// triangle whose corners lie on one line faces nowhere.
pub open spec fn unit_normal(a: Vector, b: Vector, c: Vector) -> Option<Vector> {
    unit_of(triangle_normal(a, b, c))
}

/// The normal of a triangle is at right angles to the two sides that leave
/// its first corner.
pub proof fn lemma_normal_orthogonal(a: Vector, b: Vector, c: Vector)
    ensures
        triangle_normal(a, b, c).dot(b.minus(a)) == 0,
        triangle_normal(a, b, c).dot(c.minus(a)) == 0,
{
    let u = b.minus(a);
    let v = c.minus(a);
    lemma_cross_orthogonal(u.x, u.y, u.z, v.x, v.y, v.z);
}

proof fn lemma_cross_orthogonal(ux: int, uy: int, uz: int, vx: int, vy: int, vz: int)
    ensures
        (uy * vz - uz * vy) * ux + (uz * vx - ux * vz) * uy + (ux * vy - uy * vx) * uz == 0,
        (uy * vz - uz * vy) * vx + (uz * vx - ux * vz) * vy + (ux * vy - uy * vx) * vz == 0,
{
    lemma_distribute_sub(uy * vz, uz * vy, ux);
    lemma_distribute_sub(uz * vx, ux * vz, uy);
    lemma_distribute_sub(ux * vy, uy * vx, uz);
    lemma_rotate(uy, vz, ux);
    lemma_rotate(uz, vy, ux);
    lemma_rotate(uz, vx, uy);
    lemma_distribute_sub(uy * vz, uz * vy, vx);
    lemma_distribute_sub(uz * vx, ux * vz, vy);
    lemma_distribute_sub(ux * vy, uy * vx, vz);
    lemma_rotate(uy, vz, vx);
    lemma_rotate(uz, vy, vx);
    lemma_rotate(ux, vz, vy);
}

/// Taking the corners in the opposite order turns the normal round.
pub proof fn lemma_reversed_winding_negates_normal(a: Vector, b: Vector, c: Vector)
    ensures
        triangle_normal(c, b, a) == triangle_normal(a, b, c).negated(),
{
    lemma_cross_reversed(a.x, a.y, b.x, b.y, c.x, c.y);
    lemma_cross_reversed(a.y, a.z, b.y, b.z, c.y, c.z);
    lemma_cross_reversed(a.z, a.x, b.z, b.x, c.z, c.x);
}

proof fn lemma_cross_reversed(ap: int, aq: int, bp: int, bq: int, cp: int, cq: int)
    ensures
        (bp - cp) * (aq - cq) - (bq - cq) * (ap - cp) == -((bp - ap) * (cq - aq) - (bq - aq) * (cp
            - ap)),
{
    lemma_expand(bp, cp, aq, cq);
    lemma_expand(bq, cq, ap, cp);
    lemma_expand(bp, ap, cq, aq);
    lemma_expand(bq, aq, cp, ap);
    lemma_swap(cp, cq);
    lemma_swap(cq, ap);
    lemma_swap(cp, aq);
    lemma_swap(ap, aq);
}

/// Whether the three corners lie on one line: some multiple of one side is
/// a multiple of the other, and not both multiples are by zero.
pub open spec fn collinear(a: Vector, b: Vector, c: Vector) -> bool {
    exists|p: int, q: int| #[trigger] stretches_alike(b.minus(a), p, c.minus(a), q)
}

/// Whether `p` times `u` is `q` times `v`, with `p` and `q` not both zero.
pub open spec fn stretches_alike(u: Vector, p: int, v: Vector, q: int) -> bool {
    &&& p != 0 || q != 0
    &&& p * u.x == q * v.x
    &&& p * u.y == q * v.y
    &&& p * u.z == q * v.z
}

/// The triangle has no normal exactly when its corners lie on one line.
pub proof fn lemma_normal_zero_iff_collinear(a: Vector, b: Vector, c: Vector)
    ensures
        triangle_normal(a, b, c) == (Vector { x: 0, y: 0, z: 0 }) <==> collinear(a, b, c),
{
    let u = b.minus(a);
    let v = c.minus(a);
    let n = triangle_normal(a, b, c);
    if collinear(a, b, c) {
        let (p, q) = choose|p: int, q: int| #[trigger] stretches_alike(u, p, v, q);
        lemma_alike_cross_zero(u.y, u.z, v.y, v.z, p, q);
        lemma_alike_cross_zero(u.z, u.x, v.z, v.x, p, q);
        lemma_alike_cross_zero(u.x, u.y, v.x, v.y, p, q);
    }
    if n == (Vector { x: 0, y: 0, z: 0 }) {
        if u.x != 0 {
            lemma_swap(v.x, u.x);
            lemma_swap(v.x, u.y);
            lemma_swap(v.x, u.z);
            assert(stretches_alike(u, v.x, v, u.x));
        } else if u.y != 0 {
            lemma_swap(v.y, u.x);
            lemma_swap(v.y, u.y);
            lemma_swap(v.y, u.z);
            assert(stretches_alike(u, v.y, v, u.y));
        } else if u.z != 0 {
            lemma_swap(v.z, u.x);
            lemma_swap(v.z, u.y);
            lemma_swap(v.z, u.z);
            assert(stretches_alike(u, v.z, v, u.z));
        } else {
            assert(stretches_alike(u, 1, v, 0));
        }
    }
}

proof fn lemma_alike_cross_zero(u1: int, u2: int, v1: int, v2: int, p: int, q: int)
    requires
        p != 0 || q != 0,
        p * u1 == q * v1,
        p * u2 == q * v2,
    ensures
        u1 * v2 - u2 * v1 == 0,
{
    if q != 0 {
        lemma_distribute_sub(u1 * v2, u2 * v1, q);
        lemma_rotate(q, u1, v2);
        lemma_rotate(q, u2, v1);
        lemma_rotate(u1, p, u2);
        assert(q * (u1 * v2) == u1 * (q * v2));
        assert(q * (u2 * v1) == u2 * (q * v1));
        assert(u1 * (p * u2) == p * (u1 * u2));
        lemma_rotate(u2, p, u1);
        lemma_swap(u1, u2);
        assert(u2 * (p * u1) == p * (u2 * u1));
        assert(q * (u1 * v2 - u2 * v1) == 0);
        lemma_zero_product(q, u1 * v2 - u2 * v1);
    } else {
        lemma_zero_product(q, v1);
        lemma_zero_product(q, v2);
        lemma_zero_product(p, u1);
        lemma_zero_product(p, u2);
        lemma_zero_product(u1, v2);
        lemma_zero_product(u2, v1);
    }
}

/// The facing of a triangle exists exactly when its corners do not lie on
/// one line. It then is a unit vector at right angles to the two sides that
/// leave the first corner, up to the rounding of its coordinates: its length
/// is within four micrometres of `UNIT`, and its scalar product with a side
/// is at most twice the taxicab length of the side where it would be zero.
pub proof fn lemma_unit_normal(a: Vector, b: Vector, c: Vector)
    ensures
        unit_normal(a, b, c) is None <==> collinear(a, b, c),
        unit_normal(a, b, c) matches Some(n) ==> {
            &&& nearly_unit(n)
            &&& size(n.dot(b.minus(a))) <= 2 * taxicab(b.minus(a))
            &&& size(n.dot(c.minus(a))) <= 2 * taxicab(c.minus(a))
        },
{
    let normal = triangle_normal(a, b, c);
    lemma_normal_zero_iff_collinear(a, b, c);
    lemma_unit_of_none_iff_zero(normal);
    lemma_unit_of_length(normal);
    lemma_normal_orthogonal(a, b, c);
    lemma_unit_of_nearly_orthogonal(normal, b.minus(a));
    lemma_unit_of_nearly_orthogonal(normal, c.minus(a));
}

/// Taking the corners in the opposite order turns the facing round.
pub proof fn lemma_reversed_winding_reverses_unit_normal(a: Vector, b: Vector, c: Vector)
    ensures
        unit_normal(c, b, a) == reversed(unit_normal(a, b, c)),
{
    lemma_reversed_winding_negates_normal(a, b, c);
    lemma_unit_of_negated(triangle_normal(a, b, c));
}

/// A squared distance is the same from either end, is never negative, and is
/// zero only between a point and itself.
pub proof fn lemma_dist_sq(a: Vector, b: Vector)
    ensures
        a.dist_sq(b) == b.dist_sq(a),
        a.dist_sq(b) >= 0,
        a.dist_sq(b) == 0 ==> a == b,
{
    lemma_square_of_difference(a.x, b.x);
    lemma_square_of_difference(a.y, b.y);
    lemma_square_of_difference(a.z, b.z);
}

proof fn lemma_square_of_difference(x: int, y: int)
    by (nonlinear_arith)
    ensures
        (x - y) * (x - y) == (y - x) * (y - x),
        (x - y) * (x - y) >= 0,
        (x - y) * (x - y) == 0 ==> x == y,
{
}

/// The pick point does not depend on the winding: taking the corners in the
/// opposite order gives the same point.
pub proof fn lemma_reversed_winding_keeps_point(a: Vector, b: Vector, c: Vector)
    ensures
        first_estimate(c, b, a) == first_estimate(a, b, c),
        second_estimate(c, b, a) == second_estimate(a, b, c),
        pick_point(c, b, a) == pick_point(a, b, c),
{
    lemma_dist_sq(a, b);
    lemma_dist_sq(b, c);
    lemma_dist_sq(c, a);
    lemma_dist_sq(a, c);
    lemma_dist_sq(b, a);
    lemma_dist_sq(c, b);
    let first = first_estimate(a, b, c);
    assert(first_estimate(c, b, a) == first);
    lemma_dist_sq(a, first);
    lemma_dist_sq(b, first);
    lemma_dist_sq(c, first);
}

/// The least of three numbers.
pub open spec fn least(a: int, b: int, c: int) -> int {
    if a <= b && a <= c {
        a
    } else if b <= c {
        b
    } else {
        c
    }
}

/// The greatest of three numbers.
pub open spec fn greatest(a: int, b: int, c: int) -> int {
    if a >= b && a >= c {
        a
    } else if b >= c {
        b
    } else {
        c
    }
}

/// Whether `p` lies in the box that the three corners span.
pub open spec fn within_corners(p: Vector, a: Vector, b: Vector, c: Vector) -> bool {
    &&& least(a.x, b.x, c.x) <= p.x <= greatest(a.x, b.x, c.x)
    &&& least(a.y, b.y, c.y) <= p.y <= greatest(a.y, b.y, c.y)
    &&& least(a.z, b.z, c.z) <= p.z <= greatest(a.z, b.z, c.z)
}

/// A mean with weights that are not negative lies between the least and the
/// greatest of what it averages.
pub proof fn lemma_weighted_coordinate_between(
    wa: int,
    wb: int,
    wc: int,
    a: int,
    b: int,
    c: int,
    lo: int,
    hi: int,
)
    requires
        wa >= 0,
        wb >= 0,
        wc >= 0,
        wa + wb + wc > 0,
        lo <= a <= hi,
        lo <= b <= hi,
        lo <= c <= hi,
    ensures
        lo <= div_toward_zero(wa * a + wb * b + wc * c, wa + wb + wc) <= hi,
{
    let total = wa + wb + wc;
    lemma_scale_inequality(lo, a, wa);
    lemma_scale_inequality(lo, b, wb);
    lemma_scale_inequality(lo, c, wc);
    lemma_scale_inequality(a, hi, wa);
    lemma_scale_inequality(b, hi, wb);
    lemma_scale_inequality(c, hi, wc);
    lemma_distribute_three(wa, wb, wc, lo);
    lemma_distribute_three(wa, wb, wc, hi);
    lemma_div_toward_zero_between(wa * a + wb * b + wc * c, total, lo, hi);
}

/// The pick point never leaves the box that the corners span, and neither
/// does either estimate.
pub proof fn lemma_pick_point_within_corners(a: Vector, b: Vector, c: Vector)
    ensures
        within_corners(first_estimate(a, b, c), a, b, c),
        within_corners(second_estimate(a, b, c), a, b, c),
        within_corners(pick_point(a, b, c), a, b, c),
{
    lemma_dist_sq(b, c);
    lemma_dist_sq(c, a);
    lemma_dist_sq(a, b);
    let first = first_estimate(a, b, c);
    lemma_mean_within_corners(b.dist_sq(c), c.dist_sq(a), a.dist_sq(b), a, b, c, a);
    lemma_dist_sq(a, first);
    lemma_dist_sq(b, first);
    lemma_dist_sq(c, first);
    lemma_mean_within_corners(
        a.dist_sq(first),
        b.dist_sq(first),
        c.dist_sq(first),
        a,
        b,
        c,
        first,
    );
}

proof fn lemma_mean_within_corners(
    wa: int,
    wb: int,
    wc: int,
    a: Vector,
    b: Vector,
    c: Vector,
    fallback: Vector,
)
    requires
        wa >= 0,
        wb >= 0,
        wc >= 0,
        within_corners(fallback, a, b, c),
    ensures
        within_corners(weighted_mean(wa, wb, wc, a, b, c, fallback), a, b, c),
{
    if wa + wb + wc > 0 {
        lemma_weighted_coordinate_between(
            wa,
            wb,
            wc,
            a.x,
            b.x,
            c.x,
            least(a.x, b.x, c.x),
            greatest(a.x, b.x, c.x),
        );
        lemma_weighted_coordinate_between(
            wa,
            wb,
            wc,
            a.y,
            b.y,
            c.y,
            least(a.y, b.y, c.y),
            greatest(a.y, b.y, c.y),
        );
        lemma_weighted_coordinate_between(
            wa,
            wb,
            wc,
            a.z,
            b.z,
            c.z,
            least(a.z, b.z, c.z),
            greatest(a.z, b.z, c.z),
        );
    }
}

/// Largest weight that `weighted_coordinate` accepts: the largest squared
/// distance between two positions.
pub(crate) const WEIGHT_LIMIT: i128 = 12_000_000_000_000_000_000_000_000;

/// One coordinate of a weighted mean.
fn weighted_coordinate(wa: u128, wb: u128, wc: u128, a: i64, b: i64, c: i64) -> (r: i64)
    requires
        wa <= WEIGHT_LIMIT,
        wb <= WEIGHT_LIMIT,
        wc <= WEIGHT_LIMIT,
        wa + wb + wc > 0,
        -COORD_LIMIT <= a <= COORD_LIMIT,
        -COORD_LIMIT <= b <= COORD_LIMIT,
        -COORD_LIMIT <= c <= COORD_LIMIT,
    ensures
        r == div_toward_zero(wa * a + wb * b + wc * c, wa + wb + wc),
        -COORD_LIMIT <= r <= COORD_LIMIT,
{
    let total: i128 = (wa + wb + wc) as i128;
    proof {
        lemma_mul_bound(wa as int, a as int, WEIGHT_LIMIT as int, COORD_LIMIT as int);
        lemma_mul_bound(wb as int, b as int, WEIGHT_LIMIT as int, COORD_LIMIT as int);
        lemma_mul_bound(wc as int, c as int, WEIGHT_LIMIT as int, COORD_LIMIT as int);
        lemma_weighted_coordinate_between(
            wa as int,
            wb as int,
            wc as int,
            a as int,
            b as int,
            c as int,
            -COORD_LIMIT,
            COORD_LIMIT as int,
        );
    }
    let sum: i128 = (wa as i128) * (a as i128) + (wb as i128) * (b as i128) + (wc as i128) * (
    c as i128);
    let q: i128 = sum / total;
    q as i64
}

/// The weighted mean of three positions.
fn weighted_position(
    wa: u128,
    wb: u128,
    wc: u128,
    a: &Vec3,
    b: &Vec3,
    c: &Vec3,
    fallback: &Vec3,
) -> (r: Vec3)
    requires
        wa <= WEIGHT_LIMIT,
        wb <= WEIGHT_LIMIT,
        wc <= WEIGHT_LIMIT,
    ensures
        r@ == weighted_mean(wa as int, wb as int, wc as int, a@, b@, c@, fallback@),
{
    if wa == 0 && wb == 0 && wc == 0 {
        return *fallback;
    }
    let (ax, ay, az) = a.components();
    let (bx, by, bz) = b.components();
    let (cx, cy, cz) = c.components();
    let x = weighted_coordinate(wa, wb, wc, ax, bx, cx);
    let y = weighted_coordinate(wa, wb, wc, ay, by, cy);
    let z = weighted_coordinate(wa, wb, wc, az, bz, cz);
    Vec3::new(x, y, z).unwrap()
}

/// Halfway from one position to another.
fn halfway_between(from: &Vec3, to: &Vec3) -> (r: Vec3)
    ensures
        r@ == halfway(from@, to@),
{
    let (fx, fy, fz) = from.components();
    let (tx, ty, tz) = to.components();
    Vec3::new(fx + (tx - fx) / 2, fy + (ty - fy) / 2, fz + (tz - fz) / 2).unwrap()
}

/// The pick point and the facing of the triangle that three landmarks span,
/// taken in the winding in which they are given. Landmarks on one line have a
/// pick point and no facing.
pub fn get_position_and_normal_from_triangle(points: [Vec3; 3]) -> (r: (Vec3, Option<Direction>))
    ensures
        r.0@ == pick_point(points[0]@, points[1]@, points[2]@),
        within_corners(r.0@, points[0]@, points[1]@, points[2]@),
        r.1 is None <==> collinear(points[0]@, points[1]@, points[2]@),
        r.1 is Some <==> unit_normal(points[0]@, points[1]@, points[2]@) is Some,
        r.1 matches Some(n) ==> unit_normal(points[0]@, points[1]@, points[2]@) == Some(n@)
            && nearly_unit(n@),
{
    proof {
        lemma_pick_point_within_corners(points[0]@, points[1]@, points[2]@);
        lemma_unit_normal(points[0]@, points[1]@, points[2]@);
    }
    let a = points[0];
    let b = points[1];
    let c = points[2];
    let first = weighted_position(
        b.distance_squared(&c),
        c.distance_squared(&a),
        a.distance_squared(&b),
        &a,
        &b,
        &c,
        &a,
    );
    let second = weighted_position(
        a.distance_squared(&first),
        b.distance_squared(&first),
        c.distance_squared(&first),
        &a,
        &b,
        &c,
        &first,
    );
    let point = halfway_between(&second, &first);
    let (ax, ay, az) = a.components();
    let (bx, by, bz) = b.components();
    let (cx, cy, cz) = c.components();
    let ux: i128 = bx as i128 - ax as i128;
    let uy: i128 = by as i128 - ay as i128;
    let uz: i128 = bz as i128 - az as i128;
    let vx: i128 = cx as i128 - ax as i128;
    let vy: i128 = cy as i128 - ay as i128;
    let vz: i128 = cz as i128 - az as i128;
    proof {
        let span = 2 * COORD_LIMIT;
        lemma_mul_bound(uy as int, vz as int, span, span);
        lemma_mul_bound(uz as int, vy as int, span, span);
        lemma_mul_bound(uz as int, vx as int, span, span);
        lemma_mul_bound(ux as int, vz as int, span, span);
        lemma_mul_bound(ux as int, vy as int, span, span);
        lemma_mul_bound(uy as int, vx as int, span, span);
        assert(span * span == 4_000_000_000_000_000_000_000_000) by (nonlinear_arith)
            requires
                span == 2_000_000_000_000,
        ;
    }
    let normal = unit_vector(uy * vz - uz * vy, uz * vx - ux * vz, ux * vy - uy * vx);
    (point, normal)
}

} // verus!
