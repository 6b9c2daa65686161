//! Holding a captured object at a distance.
//!
//! The mover keeps the object on an arc round its anchor: what it blends is
//! the object's distance from the anchor, each frame a little nearer to the
//! distance that the mover aims at.

use crate::algebra::{lemma_rotate, lemma_scale_inequality, lemma_swap};
use crate::capture::CapturedSelection;
use crate::fixed::{div_toward_zero, size};
use crate::vec3::Vec3;
use vstd::arithmetic::power::{lemma_pow0, lemma_pow_positive, pow};
use vstd::prelude::*;

verus! {

/// How much of the object's own distance survives a frame, in hundredths.
pub const BLEND_PERCENT: i64 = 95;

/// The distance that results from blending: `BLEND_PERCENT` hundredths of the
/// way from `target` to `live`, rounded toward `target`.
pub open spec fn blend(target: int, live: int) -> int {
    target + div_toward_zero(BLEND_PERCENT * (live - target), 100)
}

/// The distance after `n` frames in which the object starts at `live` and
/// `target` does not move.
pub open spec fn blend_repeated(target: int, live: int, n: nat) -> int
    decreases n,
{
    if n == 0 {
        live
    } else {
        blend(target, blend_repeated(target, live, (n - 1) as nat))
    }
}

/// The length of an offset that may be missing: a missing one counts as none.
pub open spec fn reach(offset: Option<Vec3>) -> int {
    match offset {
        Some(v) => v@.length() as int,
        None => 0,
    }
}

/// An object that already is where the mover wants it stays there.
pub proof fn lemma_blend_fixed_point(target: int)
    ensures
        blend(target, target) == target,
{
}

/// A frame leaves nineteen twentieths of what separates the object from the
/// target distance, rounded down: the gap never grows, never changes side,
/// and shrinks as long as there is one.
pub proof fn lemma_blend_contracts(target: int, live: int)
    ensures
        100 * size(blend(target, live) - target) <= BLEND_PERCENT * size(
            live - target,
        ) < 100 * size(blend(target, live) - target) + 100,
        size(blend(target, live) - target) <= size(live - target),
        live != target ==> size(blend(target, live) - target) < size(live - target),
        live >= target ==> target <= blend(target, live) <= live,
        live <= target ==> live <= blend(target, live) <= target,
{
}

/// Frame after frame, with the target held still, the gap after `n`
/// frames is at most `(95/100)^n` of the gap at the start, and no frame
/// widens it.
pub proof fn lemma_blend_converges(target: int, live: int, n: nat)
    ensures
        pow(100, n) * size(blend_repeated(target, live, n) - target) <= pow(
            BLEND_PERCENT as int,
            n,
        ) * size(live - target),
        n > 0 ==> size(blend_repeated(target, live, n) - target) <= size(
            blend_repeated(target, live, (n - 1) as nat) - target,
        ),
    decreases n,
{
    reveal(pow);
    if n == 0 {
        lemma_pow0(100);
        lemma_pow0(BLEND_PERCENT as int);
    } else {
        let m = (n - 1) as nat;
        let before = blend_repeated(target, live, m);
        let after = blend_repeated(target, live, n);
        lemma_blend_converges(target, live, m);
        lemma_blend_contracts(target, before);
        lemma_pow_positive(100, m);
        lemma_pow_positive(BLEND_PERCENT as int, m);
        let gap0 = size(live - target);
        let gap_before = size(before - target);
        let gap_after = size(after - target);
        let p100 = pow(100, m);
        let p95 = pow(BLEND_PERCENT as int, m);
        assert(pow(100, n) == 100 * p100);
        assert(pow(BLEND_PERCENT as int, n) == 95 * p95);
        lemma_scale_inequality(100 * gap_after, 95 * gap_before, p100);
        lemma_scale_inequality(p100 * gap_before, p95 * gap0, 95);
        lemma_rotate(p100, 100, gap_after);
        lemma_rotate(p100, 95, gap_before);
        lemma_rotate(95, p95, gap0);
        lemma_swap(100, p100);
        assert((100 * p100) * gap_after == p100 * (100 * gap_after));
        assert(p100 * (95 * gap_before) == 95 * (p100 * gap_before));
        assert(95 * (p95 * gap0) == (95 * p95) * gap0);
    }
}

/// With the target held still the object arrives: after as many frames as
/// the gap is micrometres wide, if not before, it is where the mover wants
/// it, and there it stays.
pub proof fn lemma_blend_arrives(target: int, live: int, n: nat)
    ensures
        size(blend_repeated(target, live, n) - target) <= size(live - target),
        n <= size(live - target) ==> size(blend_repeated(target, live, n) - target) <= size(
            live - target,
        ) - n,
        n >= size(live - target) ==> blend_repeated(target, live, n) == target,
    decreases n,
{
    if n > 0 {
        let before = blend_repeated(target, live, (n - 1) as nat);
        lemma_blend_arrives(target, live, (n - 1) as nat);
        lemma_blend_contracts(target, before);
    }
}

/// Computes the blend of two distances.
pub fn blend_radius(target: i64, live: i64) -> (r: i64)
    ensures
        r == blend(target as int, live as int),
{
    let gap: i128 = live as i128 - target as i128;
    assert(BLEND_PERCENT == 95);
    let step: i128 = 95 * gap / 100;
    proof {
        lemma_blend_contracts(target as int, live as int);
    }
    (target as i128 + step) as i64
}

/// Follows a captured object round its anchor.
#[derive(Debug)]
pub struct Mover {
    selection: CapturedSelection,
    radius: i64,
}

impl Mover {
    /// The object that the mover holds.
    pub closed spec fn held(&self) -> CapturedSelection {
        self.selection
    }

    /// The distance from the anchor at which the object was taken up.
    pub closed spec fn start_radius(&self) -> int {
        self.radius as int
    }

    /// Takes up a captured object that stands at `offset` from the anchor,
    /// and records how far away that is.
    pub fn new(selection: CapturedSelection, offset: Option<Vec3>) -> (r: Mover)
        ensures
            r.held() == selection,
            r.start_radius() == reach(offset),
    {
        Mover { selection, radius: length_of(offset) }
    }

    /// The object that the mover holds.
    pub fn selection(&self) -> (r: &CapturedSelection)
        ensures
            *r == self.held(),
    {
        &self.selection
    }

    /// Lets go of the object and hands back the hold on it.
    pub fn into_selection(self) -> (r: CapturedSelection)
        ensures
            r == self.held(),
    {
        self.selection
    }

    /// The distance from the anchor at which the object was taken up.
    pub fn radius(&self) -> (r: i64)
        ensures
            r == self.start_radius(),
    {
        self.radius
    }

    /// The distance from the anchor at which the object goes this frame,
    /// given where the object is and where the mover wants it, both
    /// relative to the anchor.
    pub fn update(&self, object: Option<Vec3>, target: Option<Vec3>) -> (r: i64)
        ensures
            r == blend(reach(target), reach(object)),
    {
        blend_radius(length_of(target), length_of(object))
    }
}

/// The length of an offset that may be missing.
fn length_of(offset: Option<Vec3>) -> (r: i64)
    ensures
        r == reach(offset),
{
    match offset {
        Some(v) => v.length(),
        None => 0,
    }
}

} // verus!
