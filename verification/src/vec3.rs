//! Points and displacements in three dimensions.
//!
//! `Vector` is the mathematical model, with unbounded integer coordinates.
//! `Vec3` and `Direction` are the machine values that stand for one: their
//! coordinates are bounded, so that no computation on them can overflow.

use crate::algebra::{
    lemma_distribute_three, lemma_mul_bound, lemma_square_monotonic, lemma_square_of_minor,
    lemma_square_of_product, lemma_square_of_sum_of_three, lemma_swap,
};
use crate::fixed::{integer_sqrt, isqrt, lemma_isqrt_bounds, COORD_LIMIT, UNIT};
use crate::unit::{lemma_unit_of_none_iff_zero, nearly_unit, unit_of, unit_vector};
use vstd::prelude::*;

verus! {

/// A point or displacement with exact integer coordinates, in micrometres.
pub struct Vector {
    pub x: int,
    pub y: int,
    pub z: int,
}

impl Vector {
    /// The component-wise difference.
    pub open spec fn minus(self, other: Vector) -> Vector {
        Vector { x: self.x - other.x, y: self.y - other.y, z: self.z - other.z }
    }

    /// The opposite displacement.
    pub open spec fn negated(self) -> Vector {
        Vector { x: -self.x, y: -self.y, z: -self.z }
    }

    /// The scalar product.
    pub open spec fn dot(self, other: Vector) -> int {
        self.x * other.x + self.y * other.y + self.z * other.z
    }

    /// The vector product, by the right-hand rule.
    pub open spec fn cross(self, other: Vector) -> Vector {
        Vector {
            x: self.y * other.z - self.z * other.y,
            y: self.z * other.x - self.x * other.z,
            z: self.x * other.y - self.y * other.x,
        }
    }

    /// The squared length.
    pub open spec fn norm_sq(self) -> int {
        self.dot(self)
    }

    /// The squared distance to `other`.
    pub open spec fn dist_sq(self, other: Vector) -> int {
        self.minus(other).norm_sq()
    }

    /// The length, rounded down to a whole micrometre.
    pub open spec fn length(self) -> nat {
        isqrt(self.norm_sq() as nat)
    }

    /// Whether no coordinate exceeds `limit` in magnitude.
    pub open spec fn within(self, limit: int) -> bool {
        &&& -limit <= self.x <= limit
        &&& -limit <= self.y <= limit
        &&& -limit <= self.z <= limit
    }
}

/// A squared length is never negative.
pub proof fn lemma_norm_sq_nonnegative(v: Vector)
    ensures
        v.norm_sq() >= 0,
{
    assert(v.x * v.x >= 0) by (nonlinear_arith);
    assert(v.y * v.y >= 0) by (nonlinear_arith);
    assert(v.z * v.z >= 0) by (nonlinear_arith);
}

/// A vector whose coordinates stay within `limit` has a squared length of at
/// most three times the square of `limit`.
pub proof fn lemma_norm_sq_bound(v: Vector, limit: int)
    requires
        v.within(limit),
    ensures
        0 <= v.norm_sq() <= 3 * (limit * limit),
{
    lemma_norm_sq_nonnegative(v);
    lemma_mul_bound(v.x, v.x, limit, limit);
    lemma_mul_bound(v.y, v.y, limit, limit);
    lemma_mul_bound(v.z, v.z, limit, limit);
}

/// The scalar product of two vectors is no larger than the product of their
/// lengths.
pub proof fn lemma_dot_within_lengths(a: Vector, b: Vector)
    ensures
        a.dot(b) * a.dot(b) <= a.norm_sq() * b.norm_sq(),
{
    lemma_square_of_sum_of_three(a.x * b.x, a.y * b.y, a.z * b.z);
    lemma_square_of_product(a.x, b.x);
    lemma_square_of_product(a.y, b.y);
    lemma_square_of_product(a.z, b.z);
    lemma_square_of_minor(a.x, a.y, b.x, b.y);
    lemma_square_of_minor(a.y, a.z, b.y, b.z);
    lemma_square_of_minor(a.x, a.z, b.x, b.z);
    lemma_distribute_three(b.x * b.x, b.y * b.y, b.z * b.z, a.x * a.x);
    lemma_distribute_three(b.x * b.x, b.y * b.y, b.z * b.z, a.y * a.y);
    lemma_distribute_three(b.x * b.x, b.y * b.y, b.z * b.z, a.z * a.z);
    lemma_distribute_three(a.x * a.x, a.y * a.y, a.z * a.z, b.norm_sq());
    lemma_swap(a.y * a.y, b.x * b.x);
    lemma_swap(a.z * a.z, b.y * b.y);
    lemma_swap(a.z * a.z, b.x * b.x);
}

/// A position in some reference frame: each coordinate a whole number of
/// micrometres, at most `COORD_LIMIT` in magnitude.
#[derive(Clone, Copy, Debug, PartialEq, Eq, Structural)]
pub struct Vec3 {
    x: i64,
    y: i64,
    z: i64,
}

impl View for Vec3 {
    type V = Vector;

    closed spec fn view(&self) -> Vector {
        Vector { x: self.x as int, y: self.y as int, z: self.z as int }
    }
}

impl Vec3 {
    #[verifier::type_invariant]
    spec fn in_range(self) -> bool {
        self@.within(COORD_LIMIT as int)
    }

    /// The position with the given coordinates, if each is within
    /// `COORD_LIMIT`.
    pub fn new(x: i64, y: i64, z: i64) -> (r: Option<Vec3>)
        ensures
            r is Some <==> (Vector { x: x as int, y: y as int, z: z as int }).within(
                COORD_LIMIT as int,
            ),
            r matches Some(v) ==> v@ == (Vector { x: x as int, y: y as int, z: z as int }),
    {
        if -COORD_LIMIT <= x && x <= COORD_LIMIT && -COORD_LIMIT <= y && y <= COORD_LIMIT
            && -COORD_LIMIT <= z && z <= COORD_LIMIT {
            Some(Vec3 { x, y, z })
        } else {
            None
        }
    }

    /// The three coordinates.
    pub fn components(&self) -> (r: (i64, i64, i64))
        ensures
            r.0 == self@.x,
            r.1 == self@.y,
            r.2 == self@.z,
            self@.within(COORD_LIMIT as int),
    {
        proof {
            use_type_invariant(self);
        }
        (self.x, self.y, self.z)
    }

    /// The first coordinate.
    pub fn x(&self) -> (r: i64)
        ensures
            r == self@.x,
            -COORD_LIMIT <= r <= COORD_LIMIT,
    {
        proof {
            use_type_invariant(self);
        }
        self.x
    }

    /// The second coordinate.
    pub fn y(&self) -> (r: i64)
        ensures
            r == self@.y,
            -COORD_LIMIT <= r <= COORD_LIMIT,
    {
        proof {
            use_type_invariant(self);
        }
        self.y
    }

    /// The third coordinate.
    pub fn z(&self) -> (r: i64)
        ensures
            r == self@.z,
            -COORD_LIMIT <= r <= COORD_LIMIT,
    {
        proof {
            use_type_invariant(self);
        }
        self.z
    }

    /// The same position, as a value to hand out.
    pub fn point(&self) -> (r: Point)
        ensures
            r@ == self@,
            r@.within(COORD_LIMIT as int),
    {
        proof {
            use_type_invariant(self);
        }
        Point { x: self.x, y: self.y, z: self.z }
    }

    /// The squared distance to `other`.
    pub fn distance_squared(&self, other: &Vec3) -> (r: u128)
        ensures
            r == self@.dist_sq(other@),
            r <= 12 * (COORD_LIMIT * COORD_LIMIT),
    {
        let (ax, ay, az) = self.components();
        let (bx, by, bz) = other.components();
        proof {
            lemma_norm_sq_bound(self@.minus(other@), 2 * COORD_LIMIT);
            assert((2 * COORD_LIMIT) * (2 * COORD_LIMIT) == 4 * (COORD_LIMIT * COORD_LIMIT))
                by (nonlinear_arith);
        }
        squared_length(ax as i128 - bx as i128, ay as i128 - by as i128, az as i128 - bz as i128)
    }

    /// The distance to `other`, rounded down to a whole micrometre.
    pub fn distance(&self, other: &Vec3) -> (r: i64)
        ensures
            r == self@.minus(other@).length(),
            0 <= r < 4 * COORD_LIMIT,
    {
        let (ax, ay, az) = self.components();
        let (bx, by, bz) = other.components();
        let sq = squared_length(
            ax as i128 - bx as i128,
            ay as i128 - by as i128,
            az as i128 - bz as i128,
        );
        let root = integer_sqrt(sq);
        proof {
            lemma_length_bound(self@.minus(other@), 2 * COORD_LIMIT);
        }
        root as i64
    }

    /// The distance from the origin, rounded down to a whole micrometre.
    pub fn length(&self) -> (r: i64)
        ensures
            r == self@.length(),
            0 <= r < 2 * COORD_LIMIT,
    {
        let (x, y, z) = self.components();
        let sq = squared_length(x as i128, y as i128, z as i128);
        let root = integer_sqrt(sq);
        proof {
            lemma_length_bound(self@, COORD_LIMIT as int);
        }
        root as i64
    }
}

/// A position that is handed out: any whole numbers of micrometres.
#[derive(Clone, Copy, Debug, PartialEq, Eq, Structural)]
pub struct Point {
    pub x: i64,
    pub y: i64,
    pub z: i64,
}

impl View for Point {
    type V = Vector;

    open spec fn view(&self) -> Vector {
        Vector { x: self.x as int, y: self.y as int, z: self.z as int }
    }
}

/// Largest magnitude of a coordinate of which squares are taken.
pub const SPAN_LIMIT: i128 = 1_000_000_000_000_000_000;

/// The squared length of the displacement `(x, y, z)`.
pub(crate) fn squared_length(x: i128, y: i128, z: i128) -> (r: u128)
    requires
        (Vector { x: x as int, y: y as int, z: z as int }).within(SPAN_LIMIT as int),
    ensures
        r == (Vector { x: x as int, y: y as int, z: z as int }).norm_sq(),
{
    proof {
        lemma_mul_bound(x as int, x as int, SPAN_LIMIT as int, SPAN_LIMIT as int);
        lemma_mul_bound(y as int, y as int, SPAN_LIMIT as int, SPAN_LIMIT as int);
        lemma_mul_bound(z as int, z as int, SPAN_LIMIT as int, SPAN_LIMIT as int);
        lemma_norm_sq_nonnegative(Vector { x: x as int, y: y as int, z: z as int });
    }
    let sum: i128 = x * x + y * y + z * z;
    sum as u128
}

/// A vector whose coordinates stay within `limit` is shorter than twice
/// `limit`.
pub proof fn lemma_length_bound(v: Vector, limit: int)
    requires
        limit > 0,
        v.within(limit),
    ensures
        v.length() < 2 * limit,
{
    lemma_norm_sq_bound(v, limit);
    lemma_isqrt_bounds(v.norm_sq() as nat);
    let r = v.length() as int;
    if r >= 2 * limit {
        lemma_square_monotonic(2 * limit, r);
        assert((2 * limit) * (2 * limit) == 4 * (limit * limit)) by (nonlinear_arith);
        assert(limit * limit > 0) by (nonlinear_arith)
            requires
                limit > 0,
        ;
    }
}

/// No coordinate of a displacement is longer than the displacement, even
/// after its length is rounded down.
pub proof fn lemma_coordinates_within_length(v: Vector)
    ensures
        v.within(v.length() as int),
        v.length() == 0 <==> v == (Vector { x: 0, y: 0, z: 0 }),
{
    let len = v.length() as int;
    lemma_isqrt_bounds(v.norm_sq() as nat);
    lemma_norm_sq_nonnegative(v);
    assert(v.x * v.x >= 0) by (nonlinear_arith);
    assert(v.y * v.y >= 0) by (nonlinear_arith);
    assert(v.z * v.z >= 0) by (nonlinear_arith);
    lemma_coordinate_within(v.x, v.y * v.y + v.z * v.z, len);
    lemma_coordinate_within(v.y, v.x * v.x + v.z * v.z, len);
    lemma_coordinate_within(v.z, v.x * v.x + v.y * v.y, len);
}

proof fn lemma_coordinate_within(c: int, rest: int, len: int)
    requires
        len >= 0,
        rest >= 0,
        c * c + rest < (len + 1) * (len + 1),
    ensures
        -len <= c <= len,
{
    if c > len {
        lemma_square_monotonic(len + 1, c);
    } else if c < -len {
        lemma_square_monotonic(len + 1, -c);
        assert((-c) * (-c) == c * c) by (nonlinear_arith);
    }
}

/// A direction: a displacement of which each coordinate is at most `UNIT` in
/// magnitude.
///
/// One made by `toward` is a unit vector up to rounding (`nearly_unit`), and
/// only along such a one is a length a true length: `new` takes any
/// coordinates in range, and lengths along what it makes are stretched or
/// shrunk as its own length is.
#[derive(Clone, Copy, Debug, PartialEq, Eq, Structural)]
pub struct Direction {
    x: i64,
    y: i64,
    z: i64,
}

impl View for Direction {
    type V = Vector;

    closed spec fn view(&self) -> Vector {
        Vector { x: self.x as int, y: self.y as int, z: self.z as int }
    }
}

impl Direction {
    #[verifier::type_invariant]
    spec fn in_range(self) -> bool {
        self@.within(UNIT as int)
    }

    /// The direction with the given coordinates, if each is within `UNIT`.
    pub fn new(x: i64, y: i64, z: i64) -> (r: Option<Direction>)
        ensures
            r is Some <==> (Vector { x: x as int, y: y as int, z: z as int }).within(UNIT as int),
            r matches Some(d) ==> d@ == (Vector { x: x as int, y: y as int, z: z as int }),
    {
        if -UNIT <= x && x <= UNIT && -UNIT <= y && y <= UNIT && -UNIT <= z && z <= UNIT {
            Some(Direction { x, y, z })
        } else {
            None
        }
    }

    /// The direction from `from` to `to`, if they differ.
    pub fn toward(from: &Vec3, to: &Vec3) -> (r: Option<Direction>)
        ensures
            r is Some <==> from@ != to@,
            r is Some <==> unit_of(to@.minus(from@)) is Some,
            r matches Some(d) ==> unit_of(to@.minus(from@)) == Some(d@) && nearly_unit(d@),
    {
        let (fx, fy, fz) = from.components();
        let (tx, ty, tz) = to.components();
        proof {
            lemma_unit_of_none_iff_zero(to@.minus(from@));
        }
        unit_vector(tx as i128 - fx as i128, ty as i128 - fy as i128, tz as i128 - fz as i128)
    }

    /// The three coordinates.
    pub fn components(&self) -> (r: (i64, i64, i64))
        ensures
            r.0 == self@.x,
            r.1 == self@.y,
            r.2 == self@.z,
            self@.within(UNIT as int),
    {
        proof {
            use_type_invariant(self);
        }
        (self.x, self.y, self.z)
    }
}

} // verus!
