use frontier::fixed::{clamp_to_i32, quotient};
use frontier::geometry::{isqrt, Point};
use frontier::movement::step;

#[test]
fn step_at_target_stays() {
    let here = Point::new(123_456, -654_321);
    assert_eq!(step(here, here, 1_000_000, 1_000_000), here);
    assert_eq!(step(here, here, u32::MAX, u32::MAX), here);
    assert_eq!(step(here, here, 0, 0), here);
}

#[test]
fn step_goes_speed_times_dt_toward_target() {
    let from = Point::new(0, 0);
    assert_eq!(
        step(from, Point::new(3_000_000, 4_000_000), 1_000_000, 1_000_000),
        Point::new(600_000, 800_000)
    );
    assert_eq!(
        step(from, Point::new(-3_000_000, -4_000_000), 1_000_000, 1_000_000),
        Point::new(-600_000, -800_000)
    );
    assert_eq!(
        step(Point::new(1_000_000, 1_000_000), Point::new(1_000_000, 5_000_000), 200_000, 16_667),
        Point::new(1_000_000, 1_003_333)
    );
}

#[test]
fn step_is_not_cut_short_at_target() {
    let from = Point::new(0, 0);
    assert_eq!(step(from, Point::new(10, 0), 1_000_000, 1_000_000), Point::new(1_000_000, 0));
}

#[test]
fn step_rounds_toward_zero() {
    let from = Point::new(0, 0);
    assert_eq!(step(from, Point::new(-3, 0), 1, 1_500_000), Point::new(-1, 0));
    assert_eq!(step(from, Point::new(3, 0), 1, 1_500_000), Point::new(1, 0));
    assert_eq!(step(from, Point::new(1, 1), 1_000_000, 1), Point::new(0, 0));
}

#[test]
fn step_is_as_long_on_a_short_way_as_on_a_long_one() {
    let from = Point::new(0, 0);
    assert_eq!(step(from, Point::new(1, 1), 200_000, 16_000), Point::new(2_262, 2_262));
    assert_eq!(
        step(from, Point::new(1_000_000, 1_000_000), 200_000, 16_000),
        Point::new(2_262, 2_262)
    );
    assert_eq!(step(from, Point::new(100, 100), 1_000_000, 100), Point::new(70, 70));
    assert_eq!(step(from, Point::new(0, -1), 200_000, 16_000), Point::new(0, -3_200));
}

#[test]
fn step_of_a_hundred_units_from_next_to_the_target_is_off_by_parts_in_a_million() {
    let moved = step(Point::new(0, 0), Point::new(1, 1), 100_000_000, 1_000_000);
    assert_eq!(moved, Point::new(70_710_706, 70_710_706));
    // The way travelled, one part of it in the fine length, and two.
    let far: i128 = 100_000_000 + 100_000_000_000_000 / (1_000_000 * 1_414_213) + 2;
    let long: i128 = 2 * 70_710_706 * 70_710_706;
    assert_eq!(far, 100_000_072);
    assert!(long <= far * far);
    assert!(long > 100_000_002 * 100_000_002);
}

#[test]
fn step_within_a_million_ways_is_as_long_as_the_way_travelled() {
    let ways = [
        (Point::new(0, 0), Point::new(1, 1), 200_000, 16_000),
        (Point::new(0, 0), Point::new(100, 0), 200_000, 16_000),
        (Point::new(-5, 9), Point::new(2_000_000, -3_000_000), 1_500_000, 33_333),
        (Point::new(0, 0), Point::new(1, 0), 1_000_000, 1_000_000),
    ];
    for (from, to, speed, dt) in ways {
        let moved = step(from, to, speed, dt);
        let x: i128 = (moved.x - from.x).into();
        let y: i128 = (moved.y - from.y).into();
        let near: i128 = i128::from(speed) * i128::from(dt) / 1_000_000 + 2;
        assert!(x * x + y * y <= near * near);
        let least: i128 = near - 4;
        assert!(least <= 0 || x * x + y * y >= least * least);
    }
}

#[test]
fn fine_distance_is_a_million_times_finer() {
    assert_eq!(Point::new(0, 0).fine_distance(Point::new(3, 4)), 5_000_000);
    assert_eq!(Point::new(0, 0).fine_distance(Point::new(1, 1)), 1_414_213);
    assert_eq!(Point::new(7, 7).fine_distance(Point::new(7, 7)), 0);
    assert_eq!(
        Point::new(i32::MIN, i32::MIN).fine_distance(Point::new(i32::MAX, i32::MAX)),
        6_074_000_998_537_885
    );
}

#[test]
fn step_without_speed_or_time_stays() {
    let from = Point::new(5, 5);
    let to = Point::new(50, 500);
    assert_eq!(step(from, to, 0, 1_000_000), from);
    assert_eq!(step(from, to, 1_000_000, 0), from);
}

#[test]
fn step_stops_at_the_edge_of_the_grid() {
    let from = Point::new(i32::MAX - 1, i32::MIN + 1);
    let to = Point::new(i32::MAX, i32::MIN);
    assert_eq!(step(from, to, u32::MAX, u32::MAX), Point::new(i32::MAX, i32::MIN));
}

#[test]
fn square_roots_are_rounded_down() {
    assert_eq!(isqrt(0), 0);
    assert_eq!(isqrt(1), 1);
    assert_eq!(isqrt(2), 1);
    assert_eq!(isqrt(3), 1);
    assert_eq!(isqrt(4), 2);
    assert_eq!(isqrt(24), 4);
    assert_eq!(isqrt(25), 5);
    assert_eq!(isqrt(25_000_000_000_000), 5_000_000);
    assert_eq!(isqrt(u128::MAX), u64::MAX);
    assert_eq!(isqrt((u64::MAX as u128) * (u64::MAX as u128) - 1), u64::MAX - 1);
}

#[test]
fn squared_distance_is_exact() {
    assert_eq!(Point::new(0, 0).distance_squared(Point::new(3, 4)), 25);
    assert_eq!(Point::new(-1, -1).distance_squared(Point::new(-1, -1)), 0);
    assert_eq!(
        Point::new(i32::MIN, i32::MIN).distance_squared(Point::new(i32::MAX, i32::MAX)),
        2 * (u32::MAX as u128) * (u32::MAX as u128)
    );
    assert_eq!(Point::zero(), Point::new(0, 0));
}

#[test]
fn quotients_round_toward_zero() {
    assert_eq!(quotient(7, 2), 3);
    assert_eq!(quotient(-7, 2), -3);
    assert_eq!(quotient(0, 9), 0);
    assert_eq!(quotient(-1, 9), 0);
    assert_eq!(clamp_to_i32(i128::MAX), i32::MAX);
    assert_eq!(clamp_to_i32(i128::MIN), i32::MIN);
    assert_eq!(clamp_to_i32(-5), -5);
}
