use telekinesis::gesture::{corner_distances, is_manipulating, Grasp};
use telekinesis::vec3::Vec3;

fn v(x: i64, y: i64, z: i64) -> Vec3 {
    Vec3::new(x, y, z).unwrap()
}

fn hand(side: i64) -> Grasp {
    Grasp::Hand { thumb: v(0, 0, 0), index: v(side, 0, 0), middle: v(0, side, 0) }
}

#[test]
fn pointer_never_manipulates() {
    assert!(!is_manipulating(&Grasp::Pointer));
}

#[test]
fn controller_manipulates_past_half_of_its_grab() {
    assert!(!is_manipulating(&Grasp::Tip { grab: 0 }));
    assert!(!is_manipulating(&Grasp::Tip { grab: 500_000 }));
    assert!(is_manipulating(&Grasp::Tip { grab: 500_001 }));
    assert!(is_manipulating(&Grasp::Tip { grab: 1_000_000 }));
    assert!(!is_manipulating(&Grasp::Tip { grab: -1 }));
}

#[test]
fn hand_manipulates_with_its_fingers_spread() {
    assert!(is_manipulating(&hand(60_000)));
    assert!(!is_manipulating(&hand(40_000)));
    assert!(!is_manipulating(&hand(0)));
}

#[test]
fn fingers_count_as_spread_past_two_and_a_half_centimetres() {
    assert!(!is_manipulating(&hand(50_184)));
    assert!(is_manipulating(&hand(50_185)));
}

#[test]
fn spread_does_not_depend_on_the_winding() {
    let there = Grasp::Hand {
        thumb: v(10_000, 20_000, -30_000),
        index: v(45_000, -5_000, 12_000),
        middle: v(-8_000, 31_000, 7_000),
    };
    let back = Grasp::Hand {
        thumb: v(-8_000, 31_000, 7_000),
        index: v(45_000, -5_000, 12_000),
        middle: v(10_000, 20_000, -30_000),
    };
    assert!(is_manipulating(&there));
    assert!(is_manipulating(&back));
}

#[test]
fn corner_distances_are_the_nearest_and_the_farthest() {
    let points = [v(0, 0, 0), v(60_000, 0, 0), v(0, 60_000, 0)];
    assert_eq!(corner_distances(points, &v(21_136, 21_136, 0)), (29_890, 44_239));
    let points = [v(3, 0, 0), v(0, 4, 0), v(0, 0, 12)];
    assert_eq!(corner_distances(points, &v(0, 0, 0)), (3, 12));
    assert_eq!(corner_distances([v(1, 1, 1), v(1, 1, 1), v(1, 1, 1)], &v(1, 1, 1)), (0, 0));
}
