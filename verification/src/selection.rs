//! Choosing, among the objects of a scene, the one a ray points at.
//!
//! Each candidate is probed before the choice is made: through its collision
//! field where it has one, by its position otherwise. The choice itself is a
//! function of the ray and the probes alone.

use crate::algebra::{
    lemma_mul_bound, lemma_scale_inequality, lemma_scale_sign, lemma_square_monotonic,
    lemma_square_of_product, lemma_swap,
};
use crate::capture::CaptureAttempt;
use crate::fixed::{div_toward_zero, integer_sqrt, lemma_div_toward_zero_remainder, UNIT};
use crate::unit::nearly_unit;
use crate::vec3::{
    lemma_dot_within_lengths, lemma_length_bound, lemma_norm_sq_nonnegative, squared_length,
    Direction, Vec3, Vector,
};
use vstd::prelude::*;

verus! {

/// A half-line in the frame in which the candidates are probed. Its
/// direction is meant to be a unit vector up to rounding: lengths along any
/// other are stretched or shrunk as the direction is.
#[derive(Clone, Copy, Debug, PartialEq, Eq, Structural)]
pub struct Ray {
    pub origin: Vec3,
    pub direction: Direction,
}

/// What marching a ray through a collision field reports.
#[derive(Clone, Copy, Debug, PartialEq, Eq, Structural)]
pub struct RayMarch {
    /// The closest the ray comes to the surface; positive when it misses.
    pub min_distance: i64,
    /// How far along the ray its deepest point inside the field lies.
    pub deepest_point_distance: i64,
}

/// What is known this frame of where a candidate stands.
#[derive(Clone, Copy, Debug, PartialEq, Eq, Structural)]
pub enum Probe {
    /// The candidate has a collision field; `None` when marching it failed.
    Field(Option<RayMarch>),
    /// The candidate has no field; `None` when its position is unknown.
    Position(Option<Vec3>),
}

/// A selectable object of the scene, as probed this frame.
#[derive(Clone, Copy, Debug, PartialEq, Eq, Structural)]
pub struct Candidate {
    /// The identity that the registry gave the object.
    pub id: u64,
    pub probe: Probe,
}

/// The point reached after travelling `t` along `direction` from `origin`.
pub open spec fn ray_point(origin: Vector, direction: Vector, t: int) -> Vector {
    Vector {
        x: origin.x + div_toward_zero(direction.x * t, UNIT as int),
        y: origin.y + div_toward_zero(direction.y * t, UNIT as int),
        z: origin.z + div_toward_zero(direction.z * t, UNIT as int),
    }
}

/// The score of an object without a field that stands at `position`.
///
/// Behind the ray's origin it has none. Otherwise `t` is how far along the ray
/// its projection lies and `perp` how far it stands from the ray there; outside
/// the cone `perp <= t / 10` it has none, inside the score is `perp + t`.
///
/// `t` is a length in micrometres where `direction` is a unit vector up to
/// rounding; it is taken in units of the direction's own length otherwise.
pub open spec fn cone_score(origin: Vector, direction: Vector, position: Vector) -> Option<int> {
    let along = position.minus(origin).dot(direction);
    if along < 0 {
        None
    } else {
        let t = along / (UNIT as int);
        let perp = position.minus(ray_point(origin, direction, t)).length();
        if 10 * perp > t {
            None
        } else {
            Some(perp + t)
        }
    }
}

/// The score of an object whose field was marched: none if the ray misses
/// the surface, else the distance of the deepest point.
pub open spec fn field_score(march: RayMarch) -> Option<int> {
    if march.min_distance > 0 {
        None
    } else {
        Some(march.deepest_point_distance as int)
    }
}

/// The score of a candidate; the lower, the better. A candidate whose probe
/// failed has none.
pub open spec fn score(ray: Ray, probe: Probe) -> Option<int> {
    match probe {
        Probe::Field(Some(march)) => field_score(march),
        Probe::Position(Some(position)) => cone_score(ray.origin@, ray.direction@, position@),
        _ => None,
    }
}

/// Whether candidate `i` is the one to select: it has a score, no candidate
/// has a lower one, and each candidate before it has a higher one.
pub open spec fn is_best(ray: Ray, candidates: Seq<Candidate>, i: int) -> bool {
    &&& 0 <= i < candidates.len()
    &&& score(ray, candidates[i].probe) is Some
    &&& forall|j: int|
        0 <= j < candidates.len() && score(ray, (#[trigger] candidates[j]).probe) is Some ==> {
            let mine = score(ray, candidates[i].probe)->0;
            let theirs = score(ray, candidates[j].probe)->0;
            mine <= theirs && (j < i ==> mine < theirs)
        }
}

/// Whether no candidate has a score.
pub open spec fn none_scores(ray: Ray, candidates: Seq<Candidate>) -> bool {
    forall|j: int|
        0 <= j < candidates.len() ==> score(ray, (#[trigger] candidates[j]).probe) is None
}

/// An object without a field that stands behind the ray's origin has no
/// score, and so is never the one selected.
pub proof fn lemma_behind_ray_never_selected(ray: Ray, candidates: Seq<Candidate>, i: int)
    requires
        0 <= i < candidates.len(),
        candidates[i].probe matches Probe::Position(Some(position)) && position@.minus(
            ray.origin@,
        ).dot(ray.direction@) < 0,
    ensures
        score(ray, candidates[i].probe) is None,
        !is_best(ray, candidates, i),
{
}

/// Along a ray whose direction is a unit vector up to rounding, how far a
/// projection lies is a true length: no more than the way from the ray's
/// origin to the position, stretched by a millionth.
pub proof fn lemma_projection_within_distance(origin: Vector, direction: Vector, position: Vector)
    requires
        nearly_unit(direction),
        position.minus(origin).dot(direction) >= 0,
    ensures
        ({
            let t = position.minus(origin).dot(direction) / (UNIT as int);
            (UNIT * UNIT) * (t * t) <= ((UNIT + 1) * (UNIT + 1)) * position.dist_sq(origin)
        }),
{
    let rel = position.minus(origin);
    let along = rel.dot(direction);
    let t = along / (UNIT as int);
    lemma_div_toward_zero_remainder(along, UNIT as int);
    lemma_scale_sign(UNIT as int, t);
    lemma_square_monotonic(UNIT * t, along);
    lemma_square_of_product(UNIT as int, t);
    lemma_dot_within_lengths(rel, direction);
    lemma_norm_sq_nonnegative(rel);
    lemma_scale_inequality(direction.norm_sq(), (UNIT + 1) * (UNIT + 1), rel.norm_sq());
    lemma_swap((UNIT + 1) * (UNIT + 1), rel.norm_sq());
}

/// At most one candidate is the one to select.
pub proof fn lemma_best_unique(ray: Ray, candidates: Seq<Candidate>, i: int, j: int)
    requires
        is_best(ray, candidates, i),
        is_best(ray, candidates, j),
    ensures
        i == j,
{
}

/// `q` is `a / UNIT` rounded toward zero.
fn scale_down(a: i128) -> (q: i128)
    ensures
        q == div_toward_zero(a as int, UNIT as int),
{
    a / (UNIT as i128)
}

/// Scores an object without a field from its position.
pub fn score_position(ray: &Ray, position: &Vec3) -> (r: Option<i64>)
    ensures
        r is Some <==> cone_score(ray.origin@, ray.direction@, position@) is Some,
        r matches Some(s) ==> cone_score(ray.origin@, ray.direction@, position@) == Some(s as int),
{
    let (ox, oy, oz) = ray.origin.components();
    let (dx, dy, dz) = ray.direction.components();
    let (px, py, pz) = position.components();
    let rx: i128 = px as i128 - ox as i128;
    let ry: i128 = py as i128 - oy as i128;
    let rz: i128 = pz as i128 - oz as i128;
    proof {
        lemma_mul_bound(rx as int, dx as int, 2_000_000_000_000, 1_000_000);
        lemma_mul_bound(ry as int, dy as int, 2_000_000_000_000, 1_000_000);
        lemma_mul_bound(rz as int, dz as int, 2_000_000_000_000, 1_000_000);
    }
    let along: i128 = rx * (dx as i128) + ry * (dy as i128) + rz * (dz as i128);
    if along < 0 {
        return None;
    }
    let t: i128 = along / (UNIT as i128);
    proof {
        lemma_mul_bound(dx as int, t as int, 1_000_000, 6_000_000_000_000);
        lemma_mul_bound(dy as int, t as int, 1_000_000, 6_000_000_000_000);
        lemma_mul_bound(dz as int, t as int, 1_000_000, 6_000_000_000_000);
    }
    let qx: i128 = ox as i128 + scale_down((dx as i128) * t);
    let qy: i128 = oy as i128 + scale_down((dy as i128) * t);
    let qz: i128 = oz as i128 + scale_down((dz as i128) * t);
    let ex: i128 = px as i128 - qx;
    let ey: i128 = py as i128 - qy;
    let ez: i128 = pz as i128 - qz;
    let ghost off = Vector { x: ex as int, y: ey as int, z: ez as int };
    assert(off == position@.minus(ray_point(ray.origin@, ray.direction@, t as int)));
    let perp_sq = squared_length(ex, ey, ez);
    let perp = integer_sqrt(perp_sq);
    proof {
        lemma_length_bound(off, 8_000_000_000_000);
    }
    let perp: i128 = perp as i128;
    if 10 * perp > t {
        None
    } else {
        Some((perp + t) as i64)
    }
}

/// Scores an object from what marching its field reported.
pub fn score_field(march: &RayMarch) -> (r: Option<i64>)
    ensures
        r is Some <==> field_score(*march) is Some,
        r matches Some(s) ==> field_score(*march) == Some(s as int),
{
    if march.min_distance > 0 {
        None
    } else {
        Some(march.deepest_point_distance)
    }
}

/// Scores a candidate from its probe.
pub fn score_candidate(ray: &Ray, probe: &Probe) -> (r: Option<i64>)
    ensures
        r is Some <==> score(*ray, *probe) is Some,
        r matches Some(s) ==> score(*ray, *probe) == Some(s as int),
{
    match probe {
        Probe::Field(Some(march)) => score_field(march),
        Probe::Position(Some(position)) => score_position(ray, position),
        _ => None,
    }
}

/// The index of the candidate to select, if any has a score.
pub fn select(ray: &Ray, candidates: &Vec<Candidate>) -> (best: Option<usize>)
    ensures
        best matches Some(i) ==> is_best(*ray, candidates@, i as int),
        best is None ==> none_scores(*ray, candidates@),
{
    let mut best: Option<(usize, i64)> = None;
    let mut k: usize = 0;
    while k < candidates.len()
        invariant
            k <= candidates.len(),
            best matches Some((i, s)) ==> {
                &&& i < k
                &&& score(*ray, candidates@[i as int].probe) == Some(s as int)
                &&& forall|j: int|
                    0 <= j < k && score(*ray, (#[trigger] candidates@[j]).probe) is Some ==> {
                        let theirs = score(*ray, candidates@[j].probe)->0;
                        s <= theirs && (j < i ==> s < theirs)
                    }
            },
            best is None ==> forall|j: int|
                0 <= j < k ==> score(*ray, (#[trigger] candidates@[j]).probe) is None,
        decreases candidates.len() - k,
    {
        let scored = score_candidate(ray, &candidates[k].probe);
        if let Some(s) = scored {
            let better = match best {
                Some((_, least)) => s < least,
                None => true,
            };
            if better {
                best = Some((k, s));
            }
        }
        k += 1;
    }
    match best {
        Some((i, _)) => Some(i),
        None => None,
    }
}

/// Tracks the candidate that the ray last pointed at.
#[derive(Debug)]
pub struct Selector {
    selection: Option<u64>,
}

impl Selector {
    /// The identity of the current best candidate.
    pub closed spec fn selected(&self) -> Option<u64> {
        self.selection
    }

    /// A selector with nothing selected.
    pub fn new() -> (r: Selector)
        ensures
            r.selected() is None,
    {
        Selector { selection: None }
    }

    /// The identity of the current best candidate.
    pub fn selection(&self) -> (r: Option<u64>)
        ensures
            r == self.selected(),
    {
        self.selection
    }

    /// Makes the best-scoring candidate under `ray` the current one, or none
    /// when no candidate scores, and returns its index.
    pub fn update_selection(&mut self, ray: &Ray, candidates: &Vec<Candidate>) -> (best: Option<
        usize,
    >)
        ensures
            best matches Some(i) ==> is_best(*ray, candidates@, i as int) && final(self).selected()
                == Some(candidates@[i as int].id),
            best is None ==> none_scores(*ray, candidates@) && final(self).selected() is None,
    {
        let best = select(ray, candidates);
        self.selection = match best {
            Some(i) => Some(candidates[i].id),
            None => None,
        };
        best
    }

    /// Takes the current best candidate, leaving none selected, and opens an
    /// attempt to capture it.
    pub fn capture_selected(&mut self) -> (r: Option<CaptureAttempt>)
        ensures
            final(self).selected() is None,
            r is Some <==> old(self).selected() is Some,
            r matches Some(attempt) ==> attempt == CaptureAttempt::start(old(self).selected()->0),
    {
        let taken = self.selection;
        self.selection = None;
        match taken {
            Some(id) => Some(CaptureAttempt::begin(id)),
            None => None,
        }
    }
}

} // verus!
