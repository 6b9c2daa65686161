use telekinesis::fixed::{COORD_LIMIT, UNIT};
use telekinesis::pose::get_position_and_normal_from_triangle;
use telekinesis::vec3::{Direction, Vec3};

fn v(x: i64, y: i64, z: i64) -> Vec3 {
    Vec3::new(x, y, z).unwrap()
}

fn d(x: i64, y: i64, z: i64) -> Option<Direction> {
    Some(Direction::new(x, y, z).unwrap())
}

fn dot(n: &Direction, x: i64, y: i64, z: i64) -> i64 {
    let (nx, ny, nz) = n.components();
    nx * x + ny * y + nz * z
}

fn norm_sq(n: &Direction) -> i64 {
    let (nx, ny, nz) = n.components();
    nx * nx + ny * ny + nz * nz
}

#[test]
fn right_triangle_has_the_expected_pick_point() {
    let a = v(0, 0, 0);
    let b = v(4 * UNIT, 0, 0);
    let c = v(0, 3 * UNIT, 0);
    let (point, normal) = get_position_and_normal_from_triangle([a, b, c]);
    assert_eq!(point, v(1_672_360, 874_382, 0));
    assert_eq!(normal, d(0, 0, UNIT));
}

#[test]
fn fingertip_triangle_has_the_expected_pick_point() {
    let a = v(10_000, 20_000, -30_000);
    let b = v(45_000, -5_000, 12_000);
    let c = v(-8_000, 31_000, 7_000);
    let (point, normal) = get_position_and_normal_from_triangle([a, b, c]);
    assert_eq!(point, v(19_634, 12_581, -1_504));
    assert_eq!(normal, d(-559_994, -828_080, -26_243));
}

#[test]
fn normal_is_a_unit_vector_up_to_rounding() {
    let a = v(10_000, 20_000, -30_000);
    let b = v(45_000, -5_000, 12_000);
    let c = v(-8_000, 31_000, 7_000);
    let (_, normal) = get_position_and_normal_from_triangle([a, b, c]);
    let normal = normal.unwrap();
    assert_eq!(norm_sq(&normal), 999_998_461_485);
    assert!((UNIT - 4) * (UNIT - 4) < norm_sq(&normal));
    assert!(norm_sq(&normal) < (UNIT + 1) * (UNIT + 1));
    let (_, normal) =
        get_position_and_normal_from_triangle([v(0, 0, 0), v(1, 0, 0), v(0, 1, 0)]);
    assert_eq!(norm_sq(&normal.unwrap()), UNIT * UNIT);
}

#[test]
fn normal_is_at_right_angles_to_the_sides_up_to_rounding() {
    let a = v(10_000, 20_000, -30_000);
    let b = v(45_000, -5_000, 12_000);
    let c = v(-8_000, 31_000, 7_000);
    let (_, normal) = get_position_and_normal_from_triangle([a, b, c]);
    let normal = normal.unwrap();
    assert_eq!(dot(&normal, 35_000, -25_000, 42_000), 4_000);
    assert_eq!(dot(&normal, -18_000, 11_000, 37_000), 21_000);
    assert!(dot(&normal, 35_000, -25_000, 42_000).abs() <= 2 * (35_000 + 25_000 + 42_000));
    assert!(dot(&normal, -18_000, 11_000, 37_000).abs() <= 2 * (18_000 + 11_000 + 37_000));
    let (_, normal) =
        get_position_and_normal_from_triangle([v(0, 0, 0), v(3, 1, 0), v(1, 2, 2)]);
    let normal = normal.unwrap();
    assert_eq!(normal.components(), (248_069, -744_208, 620_173));
    assert_eq!(dot(&normal, 3, 1, 0), -1);
    assert_eq!(dot(&normal, 1, 2, 2), -1);
}

#[test]
fn reversed_winding_negates_the_normal_and_keeps_the_point() {
    let a = v(10_000, 20_000, -30_000);
    let b = v(45_000, -5_000, 12_000);
    let c = v(-8_000, 31_000, 7_000);
    let (point, normal) = get_position_and_normal_from_triangle([a, b, c]);
    let (mirrored_point, mirrored) = get_position_and_normal_from_triangle([c, b, a]);
    let (nx, ny, nz) = normal.unwrap().components();
    assert_eq!(mirrored, d(-nx, -ny, -nz));
    assert_eq!(mirrored, d(559_994, 828_080, 26_243));
    assert_eq!(mirrored_point, point);
}

#[test]
fn corners_on_one_line_give_no_normal_and_no_panic() {
    let a = v(0, 0, 0);
    let b = v(UNIT, UNIT, UNIT);
    let c = v(2 * UNIT, 2 * UNIT, 2 * UNIT);
    let (point, normal) = get_position_and_normal_from_triangle([a, b, c]);
    assert_eq!(normal, None);
    assert_eq!(point, v(UNIT, UNIT, UNIT));
}

#[test]
fn coinciding_corners_give_that_corner() {
    let a = v(1, 1, 1);
    let (point, normal) = get_position_and_normal_from_triangle([a, a, a]);
    assert_eq!(point, a);
    assert_eq!(normal, None);
}

#[test]
fn pick_point_stays_in_the_box_of_the_corners() {
    let a = v(10_000, 20_000, -30_000);
    let b = v(45_000, -5_000, 12_000);
    let c = v(-8_000, 31_000, 7_000);
    let (point, _) = get_position_and_normal_from_triangle([a, b, c]);
    assert!(-8_000 <= point.x() && point.x() <= 45_000);
    assert!(-5_000 <= point.y() && point.y() <= 31_000);
    assert!(-30_000 <= point.z() && point.z() <= 12_000);
}

#[test]
fn widest_triangle_does_not_overflow() {
    let a = v(COORD_LIMIT, COORD_LIMIT, COORD_LIMIT);
    let b = v(-COORD_LIMIT, -COORD_LIMIT, -COORD_LIMIT);
    let c = v(COORD_LIMIT, -COORD_LIMIT, COORD_LIMIT);
    let (point, normal) = get_position_and_normal_from_triangle([a, b, c]);
    assert_eq!(point, v(141_025_641_026, -435_897_435_897, 141_025_641_026));
    assert_eq!(normal, d(-707_106, 0, 707_106));
}

#[test]
fn smallest_triangle_still_faces_somewhere() {
    let (_, normal) =
        get_position_and_normal_from_triangle([v(0, 0, 0), v(1, 0, 0), v(0, 1, 0)]);
    assert_eq!(normal, d(0, 0, UNIT));
    let (_, normal) =
        get_position_and_normal_from_triangle([v(0, 0, 0), v(0, 1, 0), v(1, 0, 0)]);
    assert_eq!(normal, d(0, 0, -UNIT));
}
