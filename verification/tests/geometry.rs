use telekinesis::fixed::{integer_sqrt, COORD_LIMIT, UNIT};
use telekinesis::vec3::{Direction, Point, Vec3};

fn v(x: i64, y: i64, z: i64) -> Vec3 {
    Vec3::new(x, y, z).unwrap()
}

#[test]
fn integer_sqrt_of_small_numbers() {
    assert_eq!(integer_sqrt(0), 0);
    assert_eq!(integer_sqrt(1), 1);
    assert_eq!(integer_sqrt(2), 1);
    assert_eq!(integer_sqrt(3), 1);
    assert_eq!(integer_sqrt(4), 2);
    assert_eq!(integer_sqrt(24), 4);
    assert_eq!(integer_sqrt(25), 5);
    assert_eq!(integer_sqrt(26), 5);
}

#[test]
fn integer_sqrt_of_large_numbers() {
    assert_eq!(integer_sqrt(1_000_000_000_000_000_000_000_000), 1_000_000_000_000);
    assert_eq!(integer_sqrt(999_999_999_999_999_999_999_999), 999_999_999_999);
    assert_eq!(integer_sqrt(3_000_000_000_000_000_000_000_000), 1_732_050_807_568);
    assert_eq!(integer_sqrt(u128::MAX), u64::MAX);
}

#[test]
fn integer_sqrt_brackets_its_argument() {
    let mut n: u128 = 0;
    while n < 5000 {
        let r = integer_sqrt(n) as u128;
        assert!(r * r <= n);
        assert!(n < (r + 1) * (r + 1));
        n += 1;
    }
}

#[test]
fn position_within_the_limit_is_accepted() {
    let p = v(COORD_LIMIT, -COORD_LIMIT, 0);
    assert_eq!(p.components(), (COORD_LIMIT, -COORD_LIMIT, 0));
    assert_eq!(p.x(), COORD_LIMIT);
    assert_eq!(p.y(), -COORD_LIMIT);
    assert_eq!(p.z(), 0);
}

#[test]
fn position_beyond_the_limit_is_refused() {
    assert_eq!(Vec3::new(COORD_LIMIT + 1, 0, 0), None);
    assert_eq!(Vec3::new(0, -COORD_LIMIT - 1, 0), None);
    assert_eq!(Vec3::new(0, 0, i64::MAX), None);
    assert_eq!(Vec3::new(0, 0, i64::MIN), None);
}

#[test]
fn length_rounds_down() {
    assert_eq!(v(3 * UNIT, 4 * UNIT, 0).length(), 5 * UNIT);
    assert_eq!(v(0, 0, 0).length(), 0);
    assert_eq!(v(1, 1, 0).length(), 1);
    assert_eq!(v(1, 1, 1).length(), 1);
    assert_eq!(v(-2, 0, 0).length(), 2);
    assert_eq!(v(COORD_LIMIT, COORD_LIMIT, COORD_LIMIT).length(), 1_732_050_807_568);
}

#[test]
fn distance_squared_is_symmetric_and_exact() {
    let a = v(1, 2, 3);
    let b = v(4, 6, 3);
    assert_eq!(a.distance_squared(&b), 25);
    assert_eq!(b.distance_squared(&a), 25);
    assert_eq!(a.distance_squared(&a), 0);
    let far = v(COORD_LIMIT, COORD_LIMIT, COORD_LIMIT);
    let near = v(-COORD_LIMIT, -COORD_LIMIT, -COORD_LIMIT);
    assert_eq!(far.distance_squared(&near), 12_000_000_000_000_000_000_000_000);
}

#[test]
fn point_keeps_the_coordinates() {
    assert_eq!(v(7, -8, 9).point(), Point { x: 7, y: -8, z: 9 });
}

#[test]
fn direction_within_one_unit_is_accepted() {
    let d = Direction::new(UNIT, -UNIT, 0).unwrap();
    assert_eq!(d.components(), (UNIT, -UNIT, 0));
    assert!(Direction::new(0, 0, 0).is_some());
}

#[test]
fn direction_beyond_one_unit_is_refused() {
    assert_eq!(Direction::new(UNIT + 1, 0, 0), None);
    assert_eq!(Direction::new(0, -UNIT - 1, 0), None);
    assert_eq!(Direction::new(0, 0, 2 * UNIT), None);
}

#[test]
fn distance_rounds_down() {
    assert_eq!(v(1, 2, 3).distance(&v(4, 6, 3)), 5);
    assert_eq!(v(4, 6, 3).distance(&v(1, 2, 3)), 5);
    assert_eq!(v(0, 0, 0).distance(&v(1, 1, 1)), 1);
    assert_eq!(v(9, 9, 9).distance(&v(9, 9, 9)), 0);
    let far = v(COORD_LIMIT, COORD_LIMIT, COORD_LIMIT);
    let near = v(-COORD_LIMIT, -COORD_LIMIT, -COORD_LIMIT);
    assert_eq!(far.distance(&near), 3_464_101_615_137);
}

#[test]
fn direction_toward_a_point_is_one_unit_long() {
    let d = Direction::toward(&v(0, 0, 0), &v(0, 0, -5 * UNIT)).unwrap();
    assert_eq!(d.components(), (0, 0, -UNIT));
    let d = Direction::toward(&v(UNIT, UNIT, UNIT), &v(4 * UNIT, 5 * UNIT, UNIT)).unwrap();
    assert_eq!(d.components(), (600_000, 800_000, 0));
    let d = Direction::toward(&v(4 * UNIT, 5 * UNIT, UNIT), &v(UNIT, UNIT, UNIT)).unwrap();
    assert_eq!(d.components(), (-600_000, -800_000, 0));
}

#[test]
fn direction_toward_a_point_rounds_toward_zero() {
    let d = Direction::toward(&v(0, 0, 0), &v(1, 1, 1)).unwrap();
    assert_eq!(d.components(), (577_350, 577_350, 577_350));
    let d = Direction::toward(&v(0, 0, 0), &v(1, 2, 2)).unwrap();
    assert_eq!(d.components(), (333_333, 666_666, 666_666));
    let d = Direction::toward(&v(0, 0, 0), &v(1, 0, 0)).unwrap();
    assert_eq!(d.components(), (UNIT, 0, 0));
    let d = Direction::toward(&v(0, 0, 0), &v(UNIT, UNIT, UNIT)).unwrap();
    assert_eq!(d.components(), (577_350, 577_350, 577_350));
    let d = Direction::toward(&v(0, 0, 0), &v(-UNIT, 2 * UNIT, -3 * UNIT)).unwrap();
    assert_eq!(d.components(), (-267_261, 534_522, -801_783));
}

#[test]
fn direction_across_the_world_does_not_overflow() {
    let far = v(COORD_LIMIT, COORD_LIMIT, COORD_LIMIT);
    let near = v(-COORD_LIMIT, -COORD_LIMIT, -COORD_LIMIT);
    let d = Direction::toward(&near, &far).unwrap();
    assert_eq!(d.components(), (577_350, 577_350, 577_350));
}

#[test]
fn direction_from_a_point_to_itself_is_none() {
    assert_eq!(Direction::toward(&v(3, 4, 5), &v(3, 4, 5)), None);
    assert_eq!(Direction::toward(&v(0, 0, 0), &v(0, 0, 0)), None);
}

#[test]
fn direction_toward_a_point_is_a_unit_vector_up_to_rounding() {
    let ends = [v(-UNIT, 2 * UNIT, -3 * UNIT), v(1, 1, 1), v(1, 2, 2), v(7, -COORD_LIMIT, 13)];
    let lengths = [999_998_189_694, 999_999_067_500, 999_998_000_001];
    for (index, end) in ends.iter().enumerate() {
        let (x, y, z) = Direction::toward(&v(0, 0, 0), end).unwrap().components();
        let norm_sq = x * x + y * y + z * z;
        assert!((UNIT - 4) * (UNIT - 4) < norm_sq);
        assert!(norm_sq < (UNIT + 1) * (UNIT + 1));
        if index < lengths.len() {
            assert_eq!(norm_sq, lengths[index]);
        }
    }
}
