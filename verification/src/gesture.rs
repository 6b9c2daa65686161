//! Telling when the input that holds the ring means to move an object.
//!
//! A hand says so by spreading thumb, index and middle finger; a controller
//! by its grab control; a pointer never does.

use crate::pose::{get_position_and_normal_from_triangle, pick_point};
use crate::vec3::{Vec3, Vector};
use vstd::prelude::*;

verus! {

/// How far from their pick point all three fingertips must be for the
/// fingers to count as spread: two and a half centimetres.
pub const SPREAD_THRESHOLD: i64 = 25_000;

/// How far a controller's grab control must be pressed, in millionths of its
/// travel.
pub const GRAB_THRESHOLD: i64 = 500_000;

/// What an input shows of the gesture.
#[derive(Clone, Copy, Debug, PartialEq, Eq, Structural)]
pub enum Grasp {
    /// A pointer, which shows nothing.
    Pointer,
    /// A controller: how far its grab control is pressed, in millionths.
    Tip { grab: i64 },
    /// A hand: the tips of thumb, index and middle finger.
    Hand { thumb: Vec3, index: Vec3, middle: Vec3 },
}

/// The distance from `center` to the nearest of three corners.
pub open spec fn nearest_corner(a: Vector, b: Vector, c: Vector, center: Vector) -> nat {
    let da = a.minus(center).length();
    let db = b.minus(center).length();
    let dc = c.minus(center).length();
    if da <= db && da <= dc {
        da
    } else if db <= dc {
        db
    } else {
        dc
    }
}

/// The distance from `center` to the farthest of three corners.
pub open spec fn farthest_corner(a: Vector, b: Vector, c: Vector, center: Vector) -> nat {
    let da = a.minus(center).length();
    let db = b.minus(center).length();
    let dc = c.minus(center).length();
    if da >= db && da >= dc {
        da
    } else if db >= dc {
        db
    } else {
        dc
    }
}

/// Whether the gesture is on: a controller's grab control is pressed past
/// `GRAB_THRESHOLD`, or each of a hand's three fingertips is farther than
/// `SPREAD_THRESHOLD` from their pick point.
pub open spec fn manipulating(grasp: Grasp) -> bool {
    match grasp {
        Grasp::Pointer => false,
        Grasp::Tip { grab } => grab > GRAB_THRESHOLD,
        Grasp::Hand { thumb, index, middle } => nearest_corner(
            thumb@,
            index@,
            middle@,
            pick_point(thumb@, index@, middle@),
        ) > SPREAD_THRESHOLD,
    }
}

/// The distances from `center` to the nearest and to the farthest of three
/// corners.
pub fn corner_distances(points: [Vec3; 3], center: &Vec3) -> (r: (i64, i64))
    ensures
        r.0 == nearest_corner(points[0]@, points[1]@, points[2]@, center@),
        r.1 == farthest_corner(points[0]@, points[1]@, points[2]@, center@),
{
    let da = points[0].distance(center);
    let db = points[1].distance(center);
    let dc = points[2].distance(center);
    let nearest = if da <= db && da <= dc {
        da
    } else if db <= dc {
        db
    } else {
        dc
    };
    let farthest = if da >= db && da >= dc {
        da
    } else if db >= dc {
        db
    } else {
        dc
    };
    (nearest, farthest)
}

/// Decides whether the gesture is on.
pub fn is_manipulating(grasp: &Grasp) -> (r: bool)
    ensures
        r == manipulating(*grasp),
{
    match grasp {
        Grasp::Pointer => false,
        Grasp::Tip { grab } => *grab > GRAB_THRESHOLD,
        Grasp::Hand { thumb, index, middle } => {
            let points = [*thumb, *index, *middle];
            let (center, _) = get_position_and_normal_from_triangle(points);
            let (nearest, _) = corner_distances(points, &center);
            nearest > SPREAD_THRESHOLD
        },
    }
}

} // verus!
