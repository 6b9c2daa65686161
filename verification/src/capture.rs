//! Taking exclusive hold of a selected object.
//!
//! A capture is a short conversation with the scene: acquire the object's
//! reparent lock, create an anchor, hang the object under it, measure it. The
//! scene does the work; this module decides, after each reply, what comes next
//! and what must be undone when a step fails.

use crate::fixed::COORD_LIMIT;
use crate::vec3::Vec3;
use vstd::prelude::*;

verus! {

/// One of the three axes.
#[derive(Clone, Copy, Debug, PartialEq, Eq, Structural)]
pub enum Vec3Component {
    X,
    Y,
    Z,
}

impl Vec3Component {
    /// The axis along which `(x, y, z)` is largest: the first such in the
    /// order X, Y, Z.
    pub open spec fn longest(x: int, y: int, z: int) -> Vec3Component {
        if x >= y && x >= z {
            Vec3Component::X
        } else if y >= x && y >= z {
            Vec3Component::Y
        } else {
            Vec3Component::Z
        }
    }

    /// The axis along which `(x, y, z)` is smallest: the first such in the
    /// order X, Y, Z.
    pub open spec fn shortest(x: int, y: int, z: int) -> Vec3Component {
        if x <= y && x <= z {
            Vec3Component::X
        } else if y <= x && y <= z {
            Vec3Component::Y
        } else {
            Vec3Component::Z
        }
    }

    /// The coordinate of `(x, y, z)` along this axis.
    pub open spec fn pick(self, x: int, y: int, z: int) -> int {
        match self {
            Vec3Component::X => x,
            Vec3Component::Y => y,
            Vec3Component::Z => z,
        }
    }

    /// The larger of the two coordinates of `(x, y, z)` off this axis.
    pub open spec fn larger_other(self, x: int, y: int, z: int) -> int {
        match self {
            Vec3Component::X => if y >= z { y } else { z },
            Vec3Component::Y => if x >= z { x } else { z },
            Vec3Component::Z => if x >= y { x } else { y },
        }
    }

    /// The axis along which `v` is longest.
    pub fn find_longest(v: &Vec3) -> (r: Vec3Component)
        ensures
            r == Self::longest(v@.x, v@.y, v@.z),
            r.pick(v@.x, v@.y, v@.z) >= v@.x,
            r.pick(v@.x, v@.y, v@.z) >= v@.y,
            r.pick(v@.x, v@.y, v@.z) >= v@.z,
    {
        let (x, y, z) = v.components();
        if x >= y && x >= z {
            Vec3Component::X
        } else if y >= x && y >= z {
            Vec3Component::Y
        } else {
            Vec3Component::Z
        }
    }

    /// The axis along which `v` is shortest.
    pub fn find_shortest(v: &Vec3) -> (r: Vec3Component)
        ensures
            r == Self::shortest(v@.x, v@.y, v@.z),
            r.pick(v@.x, v@.y, v@.z) <= v@.x,
            r.pick(v@.x, v@.y, v@.z) <= v@.y,
            r.pick(v@.x, v@.y, v@.z) <= v@.z,
    {
        let (x, y, z) = v.components();
        if x <= y && x <= z {
            Vec3Component::X
        } else if y <= x && y <= z {
            Vec3Component::Y
        } else {
            Vec3Component::Z
        }
    }

    /// The larger of the two coordinates of `v` off this axis.
    pub fn other_max(&self, v: &Vec3) -> (r: i64)
        ensures
            r == self.larger_other(v@.x, v@.y, v@.z),
            -COORD_LIMIT <= r <= COORD_LIMIT,
    {
        let (x, y, z) = v.components();
        match self {
            Vec3Component::X => if y >= z { y } else { z },
            Vec3Component::Y => if x >= z { x } else { z },
            Vec3Component::Z => if x >= y { x } else { y },
        }
    }

    /// The coordinate of `v` along this axis.
    pub fn get(&self, v: &Vec3) -> (r: i64)
        ensures
            r == self.pick(v@.x, v@.y, v@.z),
    {
        let (x, y, z) = v.components();
        match self {
            Vec3Component::X => x,
            Vec3Component::Y => y,
            Vec3Component::Z => z,
        }
    }
}

/// The box that encloses an object, in the object's own frame.
#[derive(Clone, Copy, Debug, PartialEq, Eq, Structural)]
pub struct BoundingBox {
    pub center: Vec3,
    pub size: Vec3,
}

/// Where the marker that shows a held object goes, in the object's frame.
#[derive(Clone, Copy, Debug, PartialEq, Eq, Structural)]
pub struct TargetPlacement {
    /// The marker sits at the centre of the object's box.
    pub center: Vec3,
    /// The marker's axis lies along the longest side of the box.
    pub axis: Vec3Component,
    /// The marker's size: twice the larger of the box's two other sides.
    pub scale: i64,
}

/// The placement of the marker round an object whose box is `bounds`.
pub open spec fn placement_for(bounds: BoundingBox) -> TargetPlacement {
    let size = bounds.size@;
    let axis = Vec3Component::longest(size.x, size.y, size.z);
    TargetPlacement {
        center: bounds.center,
        axis,
        scale: (2 * axis.larger_other(size.x, size.y, size.z)) as i64,
    }
}

/// Computes the placement of the marker round an object from its box.
pub fn place_target(bounds: &BoundingBox) -> (r: TargetPlacement)
    ensures
        r == placement_for(*bounds),
{
    let axis = Vec3Component::find_longest(&bounds.size);
    let other = axis.other_max(&bounds.size);
    TargetPlacement { center: bounds.center, axis, scale: 2 * other }
}

/// How far a capture has come: the step whose reply is awaited.
#[derive(Clone, Copy, Debug, PartialEq, Eq, Structural)]
pub enum CaptureStage {
    /// Acquiring the object's reparent lock.
    Locking,
    /// Creating the anchor, placed where the object is.
    Anchoring,
    /// Exporting the anchor and hanging the object under it.
    Exporting,
    /// Measuring the object's bounding box.
    Measuring,
}

/// What the scene answered to the step that was awaited.
#[derive(Clone, Copy, Debug, PartialEq, Eq, Structural)]
pub enum CaptureReply {
    /// The step failed.
    Failed,
    /// The step succeeded and has nothing to hand back.
    Done,
    /// The anchor was created and goes by this handle.
    Anchor(u64),
    /// The object was measured.
    Bounds(BoundingBox),
}

/// What has to be undone when a capture ends.
#[derive(Clone, Copy, Debug, PartialEq, Eq, Structural)]
pub struct Cleanup {
    /// Hide the marker and hand it back to the root.
    pub hide_target: bool,
    /// Detach the object from the anchor.
    pub unparent: bool,
    /// Release the object's reparent lock.
    pub unlock: bool,
}

/// A capture in progress, as a plain value.
pub struct AttemptView {
    pub candidate: u64,
    pub stage: CaptureStage,
    pub anchor: u64,
}

/// An object held, as a plain value.
pub struct HoldView {
    pub candidate: u64,
    pub anchor: u64,
}

/// Where a capture stands after a reply, as a plain value.
pub enum StepView {
    /// The next step is awaited.
    Next(AttemptView),
    /// Nothing was captured; the cleanup is owed.
    Abandoned(Cleanup),
    /// The object is held, and the marker goes where the placement says.
    Captured(HoldView, TargetPlacement),
}

/// Nothing to undo.
pub open spec fn no_cleanup() -> Cleanup {
    Cleanup { hide_target: false, unparent: false, unlock: false }
}

/// Only the lock to release.
pub open spec fn unlock_only() -> Cleanup {
    Cleanup { hide_target: false, unparent: false, unlock: true }
}

/// Everything to undo: marker, parent and lock.
pub open spec fn full_cleanup() -> Cleanup {
    Cleanup { hide_target: true, unparent: true, unlock: true }
}

/// The opening state of a capture of `candidate`.
pub open spec fn opening(candidate: u64) -> AttemptView {
    AttemptView { candidate, stage: CaptureStage::Locking, anchor: 0 }
}

/// The transition of a capture on a reply. Each stage awaits one kind of
/// reply; any other counts as failure of that stage. A failure before the
/// lock was granted owes nothing; one after it owes the release of the lock,
/// and once the object hangs under the anchor, everything.
pub open spec fn step_of(attempt: AttemptView, reply: CaptureReply) -> StepView {
    match (attempt.stage, reply) {
        (CaptureStage::Locking, CaptureReply::Done) => StepView::Next(
            AttemptView { stage: CaptureStage::Anchoring, ..attempt },
        ),
        (CaptureStage::Locking, _) => StepView::Abandoned(no_cleanup()),
        (CaptureStage::Anchoring, CaptureReply::Anchor(anchor)) => StepView::Next(
            AttemptView { stage: CaptureStage::Exporting, anchor, ..attempt },
        ),
        (CaptureStage::Anchoring, _) => StepView::Abandoned(unlock_only()),
        (CaptureStage::Exporting, CaptureReply::Done) => StepView::Next(
            AttemptView { stage: CaptureStage::Measuring, ..attempt },
        ),
        (CaptureStage::Exporting, _) => StepView::Abandoned(unlock_only()),
        (CaptureStage::Measuring, CaptureReply::Bounds(bounds)) => StepView::Captured(
            HoldView { candidate: attempt.candidate, anchor: attempt.anchor },
            placement_for(bounds),
        ),
        (CaptureStage::Measuring, _) => StepView::Abandoned(full_cleanup()),
    }
}

/// Where a capture stands after a run of replies: replies that come after
/// the capture has ended are not looked at.
pub open spec fn run(attempt: AttemptView, replies: Seq<CaptureReply>) -> StepView
    decreases replies.len(),
{
    if replies.len() == 0 {
        StepView::Next(attempt)
    } else {
        match step_of(attempt, replies[0]) {
            StepView::Next(next) => run(next, replies.skip(1)),
            ended => ended,
        }
    }
}

/// A capture in progress.
#[derive(Debug, PartialEq, Eq, Structural)]
pub struct CaptureAttempt {
    candidate: u64,
    stage: CaptureStage,
    anchor: u64,
}

impl View for CaptureAttempt {
    type V = AttemptView;

    closed spec fn view(&self) -> AttemptView {
        AttemptView { candidate: self.candidate, stage: self.stage, anchor: self.anchor }
    }
}

/// Exclusive hold of one object, backed by its reparent lock.
///
/// A capture that ran through all its steps is what makes one, and `release`
/// is what ends it: there is no other way to come by a hold, and none to
/// double it.
#[derive(Debug, PartialEq, Eq, Structural)]
pub struct CapturedSelection {
    candidate: u64,
    anchor: u64,
}

impl View for CapturedSelection {
    type V = HoldView;

    closed spec fn view(&self) -> HoldView {
        HoldView { candidate: self.candidate, anchor: self.anchor }
    }
}

/// Where a capture stands after a reply.
#[derive(Debug, PartialEq, Eq, Structural)]
pub enum CaptureStep {
    /// Carry out the step that the attempt now awaits and report its reply.
    Next(CaptureAttempt),
    /// Nothing was captured: carry out the cleanup.
    Abandoned(Cleanup),
    /// The object is held: put the marker where the placement says.
    Captured(CapturedSelection, TargetPlacement),
}

impl View for CaptureStep {
    type V = StepView;

    open spec fn view(&self) -> StepView {
        match *self {
            CaptureStep::Next(attempt) => StepView::Next(attempt@),
            CaptureStep::Abandoned(cleanup) => StepView::Abandoned(cleanup),
            CaptureStep::Captured(held, placement) => StepView::Captured(held@, placement),
        }
    }
}

impl CaptureAttempt {
    /// The attempt that opens the capture of `candidate`.
    pub closed spec fn start(candidate: u64) -> CaptureAttempt {
        CaptureAttempt { candidate, stage: CaptureStage::Locking, anchor: 0 }
    }

    /// Opens the capture of `candidate`: its reparent lock is to be acquired.
    pub fn begin(candidate: u64) -> (r: CaptureAttempt)
        ensures
            r == Self::start(candidate),
            r@ == opening(candidate),
    {
        CaptureAttempt { candidate, stage: CaptureStage::Locking, anchor: 0 }
    }

    /// The object that is being captured.
    pub fn candidate(&self) -> (r: u64)
        ensures
            r == self@.candidate,
    {
        self.candidate
    }

    /// The step whose reply is awaited.
    pub fn stage(&self) -> (r: CaptureStage)
        ensures
            r == self@.stage,
    {
        self.stage
    }

    /// Takes the scene's reply to the awaited step and decides what follows.
    pub fn advance(self, reply: CaptureReply) -> (step: CaptureStep)
        ensures
            step@ == step_of(self@, reply),
    {
        match self.stage {
            CaptureStage::Locking => match reply {
                CaptureReply::Done => CaptureStep::Next(
                    CaptureAttempt {
                        candidate: self.candidate,
                        stage: CaptureStage::Anchoring,
                        anchor: self.anchor,
                    },
                ),
                _ => CaptureStep::Abandoned(
                    Cleanup { hide_target: false, unparent: false, unlock: false },
                ),
            },
            CaptureStage::Anchoring => match reply {
                CaptureReply::Anchor(anchor) => CaptureStep::Next(
                    CaptureAttempt {
                        candidate: self.candidate,
                        stage: CaptureStage::Exporting,
                        anchor,
                    },
                ),
                _ => CaptureStep::Abandoned(
                    Cleanup { hide_target: false, unparent: false, unlock: true },
                ),
            },
            CaptureStage::Exporting => match reply {
                CaptureReply::Done => CaptureStep::Next(
                    CaptureAttempt {
                        candidate: self.candidate,
                        stage: CaptureStage::Measuring,
                        anchor: self.anchor,
                    },
                ),
                _ => CaptureStep::Abandoned(
                    Cleanup { hide_target: false, unparent: false, unlock: true },
                ),
            },
            CaptureStage::Measuring => match reply {
                CaptureReply::Bounds(bounds) => CaptureStep::Captured(
                    CapturedSelection { candidate: self.candidate, anchor: self.anchor },
                    place_target(&bounds),
                ),
                _ => CaptureStep::Abandoned(
                    Cleanup { hide_target: true, unparent: true, unlock: true },
                ),
            },
        }
    }
}

impl CapturedSelection {
    /// The anchor under which the held object hangs.
    pub fn spatial(&self) -> (r: u64)
        ensures
            r == self@.anchor,
    {
        self.anchor
    }

    /// The object that is held.
    pub fn candidate(&self) -> (r: u64)
        ensures
            r == self@.candidate,
    {
        self.candidate
    }

    /// Gives the object up: the marker is hidden, the object detached and its
    /// lock released, whatever the reason.
    pub fn release(self) -> (r: Cleanup)
        ensures
            r == full_cleanup(),
    {
        Cleanup { hide_target: true, unparent: true, unlock: true }
    }
}

/// Whether a run of replies grants the lock: its first reply says so.
pub open spec fn lock_granted(replies: Seq<CaptureReply>) -> bool {
    replies.len() > 0 && replies[0] == CaptureReply::Done
}

/// An object is held only by a capture to which its lock was granted.
pub proof fn lemma_capture_needs_lock(candidate: u64, replies: Seq<CaptureReply>)
    ensures
        run(opening(candidate), replies) is Captured ==> lock_granted(replies),
        run(opening(candidate), replies) matches StepView::Captured(held, _) ==> held.candidate
            == candidate,
{
    if replies.len() > 0 {
        match step_of(opening(candidate), replies[0]) {
            StepView::Next(next) => {
                lemma_run_keeps_candidate(next, replies.skip(1));
            },
            _ => {},
        }
    }
}

/// A capture that ends holding an object holds the one it set out for.
pub proof fn lemma_run_keeps_candidate(attempt: AttemptView, replies: Seq<CaptureReply>)
    ensures
        run(attempt, replies) matches StepView::Captured(held, _) ==> held.candidate
            == attempt.candidate,
        run(attempt, replies) matches StepView::Next(next) ==> next.candidate == attempt.candidate,
    decreases replies.len(),
{
    if replies.len() > 0 {
        match step_of(attempt, replies[0]) {
            StepView::Next(next) => {
                lemma_run_keeps_candidate(next, replies.skip(1));
            },
            _ => {},
        }
    }
}

/// Whether a run of replies reports success of all four steps.
pub open spec fn all_succeed(replies: Seq<CaptureReply>) -> bool {
    &&& replies.len() >= 4
    &&& replies[0] == CaptureReply::Done
    &&& replies[1] is Anchor
    &&& replies[2] == CaptureReply::Done
    &&& replies[3] is Bounds
}

/// A capture ends holding its object exactly when all four steps succeed;
/// it then holds it under the anchor that the second step created.
pub proof fn lemma_captured_iff_all_succeed(candidate: u64, replies: Seq<CaptureReply>)
    ensures
        run(opening(candidate), replies) is Captured <==> all_succeed(replies),
        run(opening(candidate), replies) matches StepView::Captured(held, placement) ==> {
            &&& held.candidate == candidate
            &&& held.anchor == replies[1]->Anchor_0
            &&& placement == placement_for(replies[3]->Bounds_0)
        },
{
    let s0 = opening(candidate);
    if replies.len() >= 1 {
        let r1 = replies.skip(1);
        if let StepView::Next(s1) = step_of(s0, replies[0]) {
            assert(run(s0, replies) == run(s1, r1));
            if r1.len() >= 1 {
                let r2 = r1.skip(1);
                assert(r1[0] == replies[1]);
                if let StepView::Next(s2) = step_of(s1, r1[0]) {
                    assert(run(s1, r1) == run(s2, r2));
                    if r2.len() >= 1 {
                        let r3 = r2.skip(1);
                        assert(r2[0] == replies[2]);
                        if let StepView::Next(s3) = step_of(s2, r2[0]) {
                            assert(run(s2, r2) == run(s3, r3));
                            if r3.len() >= 1 {
                                assert(r3[0] == replies[3]);
                            }
                        }
                    }
                }
            }
        }
    }
}

/// Of two captures of one object of which the lock admits exactly one, and
/// whose steps the scene does not fail, exactly one ends holding the object.
pub proof fn lemma_capture_exactly_one(
    candidate: u64,
    first: Seq<CaptureReply>,
    second: Seq<CaptureReply>,
)
    requires
        lock_granted(first) != lock_granted(second),
        lock_granted(first) ==> all_succeed(first),
        lock_granted(second) ==> all_succeed(second),
    ensures
        run(opening(candidate), first) is Captured != run(opening(candidate), second) is Captured,
{
    lemma_captured_iff_all_succeed(candidate, first);
    lemma_captured_iff_all_succeed(candidate, second);
}

/// Of two captures of one object, at most one ends holding it, as long as the
/// lock is granted to at most one of them.
pub proof fn lemma_capture_exclusive(
    candidate: u64,
    first: Seq<CaptureReply>,
    second: Seq<CaptureReply>,
)
    requires
        !(lock_granted(first) && lock_granted(second)),
    ensures
        !(run(opening(candidate), first) is Captured && run(opening(candidate), second)
            is Captured),
{
    lemma_capture_needs_lock(candidate, first);
    lemma_capture_needs_lock(candidate, second);
}

/// A capture that is abandoned owes the release of the lock exactly when the
/// lock was granted to it.
pub proof fn lemma_abandoned_releases_lock(candidate: u64, replies: Seq<CaptureReply>)
    ensures
        run(opening(candidate), replies) matches StepView::Abandoned(cleanup) ==> (cleanup.unlock
            <==> lock_granted(replies)),
{
    if replies.len() > 0 {
        match step_of(opening(candidate), replies[0]) {
            StepView::Next(next) => {
                lemma_locked_run_unlocks(next, replies.skip(1));
            },
            _ => {},
        }
    }
}

/// Past the first stage, whatever abandons a capture releases its lock.
proof fn lemma_locked_run_unlocks(attempt: AttemptView, replies: Seq<CaptureReply>)
    requires
        attempt.stage != CaptureStage::Locking,
    ensures
        run(attempt, replies) matches StepView::Abandoned(cleanup) ==> cleanup.unlock,
    decreases replies.len(),
{
    if replies.len() > 0 {
        match step_of(attempt, replies[0]) {
            StepView::Next(next) => {
                lemma_locked_run_unlocks(next, replies.skip(1));
            },
            _ => {},
        }
    }
}

} // verus!
