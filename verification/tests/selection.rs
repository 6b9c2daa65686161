use telekinesis::capture::CaptureStage;
use telekinesis::fixed::{COORD_LIMIT, UNIT};
use telekinesis::selection::{
    score_candidate, score_field, score_position, select, Candidate, Probe, Ray, RayMarch, Selector,
};
use telekinesis::vec3::{Direction, Vec3};

fn v(x: i64, y: i64, z: i64) -> Vec3 {
    Vec3::new(x, y, z).unwrap()
}

fn along_x() -> Ray {
    Ray { origin: v(0, 0, 0), direction: Direction::new(UNIT, 0, 0).unwrap() }
}

fn at(id: u64, x: i64, y: i64, z: i64) -> Candidate {
    Candidate { id, probe: Probe::Position(Some(v(x, y, z))) }
}

fn field(id: u64, min_distance: i64, deepest_point_distance: i64) -> Candidate {
    Candidate { id, probe: Probe::Field(Some(RayMarch { min_distance, deepest_point_distance })) }
}

#[test]
fn object_on_the_ray_scores_its_distance() {
    assert_eq!(score_position(&along_x(), &v(5 * UNIT, 0, 0)), Some(5 * UNIT));
}

#[test]
fn object_off_the_ray_scores_distance_plus_offset() {
    assert_eq!(score_position(&along_x(), &v(10 * UNIT, 990_000, 0)), Some(10_990_000));
    assert_eq!(score_position(&along_x(), &v(10 * UNIT, 0, -500_000)), Some(10_500_000));
}

#[test]
fn cone_boundary_is_a_tenth_of_the_distance() {
    let ray = along_x();
    assert_eq!(score_position(&ray, &v(10 * UNIT, 0, 0)), Some(10_000_000));
    assert_eq!(score_position(&ray, &v(10 * UNIT, 1_010_000, 0)), None);
    assert_eq!(score_position(&ray, &v(10 * UNIT, 990_000, 0)), Some(10_990_000));
    assert_eq!(score_position(&ray, &v(10 * UNIT, 1_000_000, 0)), Some(11_000_000));
    assert_eq!(score_position(&ray, &v(10 * UNIT, 1_000_001, 0)), None);
}

#[test]
fn on_axis_object_is_selected_over_one_outside_the_cone() {
    let ray = along_x();
    let outside_first = vec![at(1, 10 * UNIT, 1_010_000, 0), at(2, 10 * UNIT, 0, 0)];
    assert_eq!(select(&ray, &outside_first), Some(1));
    let on_axis_first = vec![at(2, 10 * UNIT, 0, 0), at(1, 10 * UNIT, 1_010_000, 0)];
    assert_eq!(select(&ray, &on_axis_first), Some(0));
    let inside = vec![at(3, 10 * UNIT, 990_000, 0)];
    assert_eq!(select(&ray, &inside), Some(0));
    let both_inside = vec![at(3, 10 * UNIT, 990_000, 0), at(2, 10 * UNIT, 0, 0)];
    assert_eq!(select(&ray, &both_inside), Some(1));
}

#[test]
fn object_behind_the_ray_never_scores() {
    let ray = along_x();
    assert_eq!(score_position(&ray, &v(-1, 0, 0)), None);
    assert_eq!(score_position(&ray, &v(-5 * UNIT, 0, 0)), None);
    assert_eq!(score_position(&ray, &v(-COORD_LIMIT, 0, 0)), None);
    assert_eq!(select(&ray, &vec![at(1, -1, 0, 0)]), None);
    assert_eq!(select(&ray, &vec![at(1, -1, 0, 0), at(2, 9 * UNIT, 0, 0)]), Some(1));
}

#[test]
fn object_at_the_origin_of_the_ray_scores_zero() {
    let ray = along_x();
    assert_eq!(score_position(&ray, &v(0, 0, 0)), Some(0));
    assert_eq!(score_position(&ray, &v(0, 1, 0)), None);
}

#[test]
fn skew_ray_scores_in_its_own_direction() {
    let ray = Ray {
        origin: v(1_000_000, 2_000_000, 3_000_000),
        direction: Direction::new(600_000, 800_000, 0).unwrap(),
    };
    assert_eq!(score_position(&ray, &v(4_000_000, 6_000_000, 3_000_000)), Some(5_000_000));
    assert_eq!(score_position(&ray, &v(4_000_000, 6_000_000, 3_100_000)), Some(5_100_000));
    assert_eq!(score_position(&ray, &v(4_000_000, 6_000_000, 3_600_000)), None);
    assert_eq!(score_position(&ray, &v(-2_000_000, -2_000_000, 3_000_000)), None);
}

#[test]
fn farthest_corners_of_the_world_do_not_overflow() {
    let ray = Ray {
        origin: v(-COORD_LIMIT, COORD_LIMIT, -COORD_LIMIT),
        direction: Direction::new(UNIT, 0, 0).unwrap(),
    };
    assert_eq!(
        score_position(&ray, &v(COORD_LIMIT, COORD_LIMIT, -COORD_LIMIT)),
        Some(2 * COORD_LIMIT)
    );
    let steep = Ray {
        origin: v(-COORD_LIMIT, -COORD_LIMIT, -COORD_LIMIT),
        direction: Direction::new(UNIT, UNIT, UNIT).unwrap(),
    };
    assert_eq!(score_position(&steep, &v(COORD_LIMIT, COORD_LIMIT, COORD_LIMIT)), None);
    let back = Ray {
        origin: v(COORD_LIMIT, COORD_LIMIT, COORD_LIMIT),
        direction: Direction::new(UNIT, UNIT, UNIT).unwrap(),
    };
    assert_eq!(score_position(&back, &v(-COORD_LIMIT, -COORD_LIMIT, -COORD_LIMIT)), None);
}

#[test]
fn field_that_the_ray_misses_does_not_score() {
    assert_eq!(score_field(&RayMarch { min_distance: 1, deepest_point_distance: 7 }), None);
    assert_eq!(
        score_field(&RayMarch { min_distance: i64::MAX, deepest_point_distance: 0 }),
        None
    );
}

#[test]
fn field_that_the_ray_hits_scores_its_deepest_point() {
    assert_eq!(score_field(&RayMarch { min_distance: 0, deepest_point_distance: 7 }), Some(7));
    assert_eq!(
        score_field(&RayMarch { min_distance: -250, deepest_point_distance: 3_000_000 }),
        Some(3_000_000)
    );
    assert_eq!(score_field(&RayMarch { min_distance: -1, deepest_point_distance: -9 }), Some(-9));
}

#[test]
fn failed_probe_does_not_score() {
    let ray = along_x();
    assert_eq!(score_candidate(&ray, &Probe::Field(None)), None);
    assert_eq!(score_candidate(&ray, &Probe::Position(None)), None);
}

#[test]
fn probe_is_scored_by_its_kind() {
    let ray = along_x();
    let hit = Probe::Field(Some(RayMarch { min_distance: 0, deepest_point_distance: 42 }));
    assert_eq!(score_candidate(&ray, &hit), Some(42));
    let seen = Probe::Position(Some(v(2 * UNIT, 100_000, 0)));
    assert_eq!(score_candidate(&ray, &seen), Some(2_100_000));
}

#[test]
fn end_to_end_only_the_object_on_the_ray_is_selected() {
    let ray = along_x();
    let candidates = vec![at(10, 5 * UNIT, 0, 0), at(11, 5 * UNIT, UNIT, 0)];
    assert_eq!(score_candidate(&ray, &candidates[0].probe), Some(5 * UNIT));
    assert_eq!(score_candidate(&ray, &candidates[1].probe), None);
    let mut selector = Selector::new();
    assert_eq!(selector.update_selection(&ray, &candidates), Some(0));
    assert_eq!(selector.selection(), Some(10));
}

#[test]
fn lowest_score_wins_across_kinds() {
    let ray = along_x();
    let candidates = vec![
        at(1, 5 * UNIT, 0, 0),
        field(2, 0, 4_999_999),
        field(3, 5, 1),
        at(4, 3 * UNIT, UNIT, 0),
        Candidate { id: 5, probe: Probe::Field(None) },
        at(6, 6 * UNIT, 0, 0),
    ];
    assert_eq!(select(&ray, &candidates), Some(1));
}

#[test]
fn first_of_equal_scores_wins() {
    let ray = along_x();
    let candidates = vec![
        at(1, 7 * UNIT, 0, 0),
        at(2, 5 * UNIT, 0, 0),
        field(3, -1, 5 * UNIT),
        at(4, 4_900_000, 100_000, 0),
    ];
    assert_eq!(select(&ray, &candidates), Some(1));
}

#[test]
fn no_candidates_select_nothing() {
    let ray = along_x();
    let mut selector = Selector::new();
    assert_eq!(selector.selection(), None);
    assert_eq!(selector.update_selection(&ray, &Vec::new()), None);
    assert_eq!(selector.selection(), None);
}

#[test]
fn selection_is_dropped_when_nothing_scores() {
    let ray = along_x();
    let mut selector = Selector::new();
    assert_eq!(selector.update_selection(&ray, &vec![at(9, UNIT, 0, 0)]), Some(0));
    assert_eq!(selector.selection(), Some(9));
    assert_eq!(selector.update_selection(&ray, &vec![at(9, -UNIT, 0, 0)]), None);
    assert_eq!(selector.selection(), None);
}

#[test]
fn selection_follows_the_best_candidate() {
    let ray = along_x();
    let mut selector = Selector::new();
    let first = vec![at(1, 3 * UNIT, 0, 0), at(2, 2 * UNIT, 0, 0)];
    assert_eq!(selector.update_selection(&ray, &first), Some(1));
    assert_eq!(selector.selection(), Some(2));
    let second = vec![at(1, 3 * UNIT, 0, 0), at(2, 4 * UNIT, 0, 0)];
    assert_eq!(selector.update_selection(&ray, &second), Some(0));
    assert_eq!(selector.selection(), Some(1));
}

#[test]
fn capture_takes_the_selection() {
    let ray = along_x();
    let mut selector = Selector::new();
    selector.update_selection(&ray, &vec![at(77, UNIT, 0, 0)]);
    let attempt = selector.capture_selected().unwrap();
    assert_eq!(attempt.candidate(), 77);
    assert_eq!(attempt.stage(), CaptureStage::Locking);
    assert_eq!(selector.selection(), None);
    assert_eq!(selector.capture_selected(), None);
}

#[test]
fn capture_without_selection_is_nothing() {
    let mut selector = Selector::new();
    assert_eq!(selector.capture_selected(), None);
    assert_eq!(selector.selection(), None);
}
