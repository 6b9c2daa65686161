use telekinesis::capture::{
    place_target, BoundingBox, CaptureAttempt, CaptureReply, CaptureStage, CaptureStep, Cleanup,
    TargetPlacement, Vec3Component,
};
use telekinesis::vec3::Vec3;

fn v(x: i64, y: i64, z: i64) -> Vec3 {
    Vec3::new(x, y, z).unwrap()
}

fn bounds() -> BoundingBox {
    BoundingBox { center: v(10, 20, 30), size: v(400_000, 900_000, 250_000) }
}

fn next(step: CaptureStep) -> CaptureAttempt {
    match step {
        CaptureStep::Next(attempt) => attempt,
        other => panic!("the capture ended: {:?}", other),
    }
}

const NOTHING: Cleanup = Cleanup { hide_target: false, unparent: false, unlock: false };
const UNLOCK: Cleanup = Cleanup { hide_target: false, unparent: false, unlock: true };
const EVERYTHING: Cleanup = Cleanup { hide_target: true, unparent: true, unlock: true };

#[test]
fn longest_axis_is_the_first_largest() {
    assert_eq!(Vec3Component::find_longest(&v(3, 2, 1)), Vec3Component::X);
    assert_eq!(Vec3Component::find_longest(&v(1, 3, 2)), Vec3Component::Y);
    assert_eq!(Vec3Component::find_longest(&v(1, 2, 3)), Vec3Component::Z);
    assert_eq!(Vec3Component::find_longest(&v(2, 2, 1)), Vec3Component::X);
    assert_eq!(Vec3Component::find_longest(&v(1, 2, 2)), Vec3Component::Y);
    assert_eq!(Vec3Component::find_longest(&v(2, 1, 2)), Vec3Component::X);
    assert_eq!(Vec3Component::find_longest(&v(0, 0, 0)), Vec3Component::X);
    assert_eq!(Vec3Component::find_longest(&v(-3, -2, -1)), Vec3Component::Z);
}

#[test]
fn shortest_axis_is_the_first_smallest() {
    assert_eq!(Vec3Component::find_shortest(&v(1, 2, 3)), Vec3Component::X);
    assert_eq!(Vec3Component::find_shortest(&v(3, 1, 2)), Vec3Component::Y);
    assert_eq!(Vec3Component::find_shortest(&v(3, 2, 1)), Vec3Component::Z);
    assert_eq!(Vec3Component::find_shortest(&v(1, 1, 2)), Vec3Component::X);
    assert_eq!(Vec3Component::find_shortest(&v(2, 1, 1)), Vec3Component::Y);
    assert_eq!(Vec3Component::find_shortest(&v(5, 5, 5)), Vec3Component::X);
}

#[test]
fn other_max_is_the_larger_of_the_two_other_sides() {
    let size = v(4, 9, 2);
    assert_eq!(Vec3Component::X.other_max(&size), 9);
    assert_eq!(Vec3Component::Y.other_max(&size), 4);
    assert_eq!(Vec3Component::Z.other_max(&size), 9);
    assert_eq!(Vec3Component::Y.other_max(&v(1, 0, 7)), 7);
}

#[test]
fn get_reads_the_coordinate_of_the_axis() {
    let size = v(4, 9, 2);
    assert_eq!(Vec3Component::X.get(&size), 4);
    assert_eq!(Vec3Component::Y.get(&size), 9);
    assert_eq!(Vec3Component::Z.get(&size), 2);
}

#[test]
fn marker_lies_along_the_longest_side_and_spans_the_others() {
    assert_eq!(
        place_target(&bounds()),
        TargetPlacement { center: v(10, 20, 30), axis: Vec3Component::Y, scale: 800_000 }
    );
    let cube = BoundingBox { center: v(0, 0, 0), size: v(5, 5, 5) };
    assert_eq!(
        place_target(&cube),
        TargetPlacement { center: v(0, 0, 0), axis: Vec3Component::X, scale: 10 }
    );
}

fn locking() -> CaptureAttempt {
    CaptureAttempt::begin(5)
}

fn anchoring() -> CaptureAttempt {
    next(locking().advance(CaptureReply::Done))
}

fn exporting() -> CaptureAttempt {
    next(anchoring().advance(CaptureReply::Anchor(31)))
}

fn measuring() -> CaptureAttempt {
    next(exporting().advance(CaptureReply::Done))
}

#[test]
fn capture_opens_by_locking() {
    let attempt = locking();
    assert_eq!(attempt.candidate(), 5);
    assert_eq!(attempt.stage(), CaptureStage::Locking);
}

#[test]
fn capture_runs_through_its_four_steps() {
    assert_eq!(anchoring().stage(), CaptureStage::Anchoring);
    assert_eq!(anchoring().candidate(), 5);
    assert_eq!(exporting().stage(), CaptureStage::Exporting);
    assert_eq!(exporting().candidate(), 5);
    assert_eq!(measuring().stage(), CaptureStage::Measuring);
    assert_eq!(measuring().candidate(), 5);
    match measuring().advance(CaptureReply::Bounds(bounds())) {
        CaptureStep::Captured(held, placement) => {
            assert_eq!(held.candidate(), 5);
            assert_eq!(held.spatial(), 31);
            assert_eq!(placement, place_target(&bounds()));
        }
        other => panic!("not captured: {:?}", other),
    }
}

#[test]
fn refused_lock_owes_nothing() {
    assert_eq!(locking().advance(CaptureReply::Failed), CaptureStep::Abandoned(NOTHING));
}

#[test]
fn failed_anchor_releases_the_lock() {
    assert_eq!(anchoring().advance(CaptureReply::Failed), CaptureStep::Abandoned(UNLOCK));
}

#[test]
fn failed_export_releases_the_lock() {
    assert_eq!(exporting().advance(CaptureReply::Failed), CaptureStep::Abandoned(UNLOCK));
}

#[test]
fn failed_measurement_undoes_everything() {
    assert_eq!(measuring().advance(CaptureReply::Failed), CaptureStep::Abandoned(EVERYTHING));
}

#[test]
fn unexpected_reply_counts_as_failure() {
    assert_eq!(locking().advance(CaptureReply::Anchor(1)), CaptureStep::Abandoned(NOTHING));
    assert_eq!(
        locking().advance(CaptureReply::Bounds(bounds())),
        CaptureStep::Abandoned(NOTHING)
    );
    assert_eq!(anchoring().advance(CaptureReply::Done), CaptureStep::Abandoned(UNLOCK));
    assert_eq!(
        anchoring().advance(CaptureReply::Bounds(bounds())),
        CaptureStep::Abandoned(UNLOCK)
    );
    assert_eq!(exporting().advance(CaptureReply::Anchor(2)), CaptureStep::Abandoned(UNLOCK));
    assert_eq!(
        exporting().advance(CaptureReply::Bounds(bounds())),
        CaptureStep::Abandoned(UNLOCK)
    );
    assert_eq!(measuring().advance(CaptureReply::Done), CaptureStep::Abandoned(EVERYTHING));
    assert_eq!(measuring().advance(CaptureReply::Anchor(3)), CaptureStep::Abandoned(EVERYTHING));
}

#[test]
fn of_two_captures_of_one_object_the_lock_decides() {
    let first = CaptureAttempt::begin(8);
    let second = CaptureAttempt::begin(8);
    let first = next(first.advance(CaptureReply::Done));
    assert_eq!(second.advance(CaptureReply::Failed), CaptureStep::Abandoned(NOTHING));
    let first = next(first.advance(CaptureReply::Anchor(2)));
    let first = next(first.advance(CaptureReply::Done));
    match first.advance(CaptureReply::Bounds(bounds())) {
        CaptureStep::Captured(held, _) => {
            assert_eq!(held.candidate(), 8);
            assert_eq!(held.spatial(), 2);
        }
        other => panic!("not captured: {:?}", other),
    }
}

#[test]
fn releasing_a_held_object_undoes_everything() {
    match measuring().advance(CaptureReply::Bounds(bounds())) {
        CaptureStep::Captured(held, _) => assert_eq!(held.release(), EVERYTHING),
        other => panic!("not captured: {:?}", other),
    }
}
