use rts_units::constants::plane::game_bounds;
use rts_units::fixed::divide;
use rts_units::fixed::is_within_limit;
use rts_units::fixed::round_to_whole;
use rts_units::util::are_positions_near;
use rts_units::util::keep_in_bounds;
use rts_units::util::map_value_to_range;
use rts_units::util::Bounds2D;
use rts_units::util::Vec3;

#[test]
fn division_rounds_toward_zero() {
    assert_eq!(divide(7, 2), 3);
    assert_eq!(divide(-7, 2), -3);
    assert_eq!(divide(7, -2), -3);
    assert_eq!(divide(-7, -2), 3);
    assert_eq!(divide(0, -5), 0);
    assert_eq!(divide(6, 3), 2);
}

#[test]
fn rounding_goes_to_the_nearest_whole() {
    assert_eq!(round_to_whole(0), 0);
    assert_eq!(round_to_whole(499), 0);
    assert_eq!(round_to_whole(500), 1);
    assert_eq!(round_to_whole(1_499), 1);
    assert_eq!(round_to_whole(1_500), 2);
    assert_eq!(round_to_whole(-499), 0);
    assert_eq!(round_to_whole(-500), -1);
    assert_eq!(round_to_whole(-1_500), -2);
    assert_eq!(round_to_whole(359_600), 360);
    assert_eq!(round_to_whole(i64::MAX), 9_223_372_036_854_776);
    assert_eq!(round_to_whole(i64::MIN), -9_223_372_036_854_776);
}

#[test]
fn limit_is_a_million_million() {
    assert!(is_within_limit(1_000_000_000_000));
    assert!(is_within_limit(-1_000_000_000_000));
    assert!(!is_within_limit(1_000_000_000_001));
    assert!(!is_within_limit(-1_000_000_000_001));
    assert!(Vec3::new(0, -1_000_000_000_000, 5).is_within_limit());
    assert!(!Vec3::new(0, 0, i64::MIN).is_within_limit());
}

#[test]
fn near_is_an_open_interval() {
    let centre = Vec3::new(8_000, 0, 8_000);
    assert!(are_positions_near(&centre, &Vec3::new(9_099, 0, 8_000), 1_100));
    assert!(!are_positions_near(&centre, &Vec3::new(9_100, 0, 8_000), 1_100));
    assert!(are_positions_near(&centre, &Vec3::new(8_000, 0, 6_901), 1_100));
    assert!(!are_positions_near(&centre, &Vec3::new(8_000, 0, 6_900), 1_100));
}

#[test]
fn near_compares_heights_too() {
    let centre = Vec3::new(8_000, 0, 8_000);
    assert!(are_positions_near(&centre, &Vec3::new(8_000, 1_099, 8_000), 1_100));
    assert!(!are_positions_near(&centre, &Vec3::new(8_000, -1_100, 8_000), 1_100));
}

#[test]
fn nothing_is_near_at_no_sensitivity() {
    let centre = Vec3::new(8_000, 0, 8_000);
    assert!(!are_positions_near(&centre, &centre, 0));
    assert!(!are_positions_near(&centre, &centre, -5));
    assert!(are_positions_near(&centre, &centre, 1));
}

#[test]
fn near_is_symmetric() {
    let points = [
        Vec3::new(0, 0, 0),
        Vec3::new(1_099, 0, -300),
        Vec3::new(1_100, 5, 0),
        Vec3::new(-400, 1_000, 900),
        Vec3::new(i64::MAX, i64::MIN, 0),
    ];
    for first in points {
        for second in points {
            assert_eq!(are_positions_near(&first, &second, 1_100), are_positions_near(&second, &first, 1_100));
        }
    }
}

#[test]
fn near_at_the_ends_of_the_range() {
    let low = Vec3::new(i64::MIN, i64::MIN, i64::MIN);
    let high = Vec3::new(i64::MAX, i64::MAX, i64::MAX);
    assert!(!are_positions_near(&low, &high, i64::MAX));
    assert!(are_positions_near(&high, &high, i64::MAX));
    assert!(!are_positions_near(&high, &high, i64::MIN));
}

#[test]
fn bounds_clamp_moves_a_point_inside() {
    let bounds = game_bounds();
    assert_eq!(bounds, Bounds2D { min_x: 0, min_z: 0, max_x: 24_000, max_z: 24_000 });
    assert_eq!(keep_in_bounds(bounds, Vec3::new(-5, 3, 30_000), 2_000), Vec3::new(2_000, 3, 22_000));
    assert_eq!(keep_in_bounds(bounds, Vec3::new(23_000, -7, 1_999), 2_000), Vec3::new(22_000, -7, 2_000));
}

#[test]
fn bounds_clamp_keeps_a_point_that_is_inside() {
    let bounds = game_bounds();
    assert_eq!(keep_in_bounds(bounds, Vec3::new(2_000, 9, 22_000), 2_000), Vec3::new(2_000, 9, 22_000));
    assert_eq!(keep_in_bounds(bounds, Vec3::new(12_345, 0, 6_789), 2_000), Vec3::new(12_345, 0, 6_789));
    assert_eq!(keep_in_bounds(bounds, Vec3::new(0, 0, 24_000), 0), Vec3::new(0, 0, 24_000));
}

#[test]
fn bounds_clamp_without_room_gives_the_upper_edge() {
    let narrow = Bounds2D { min_x: 0, min_z: 0, max_x: 3_000, max_z: 4_000 };
    assert_eq!(keep_in_bounds(narrow, Vec3::new(-9, 1, 99_999), 2_000), Vec3::new(1_000, 1, 2_000));
    assert_eq!(keep_in_bounds(narrow, Vec3::new(1_500, 1, 2_000), 2_000), Vec3::new(1_000, 1, 2_000));
    let point = Bounds2D { min_x: 5, min_z: 5, max_x: 5, max_z: 5 };
    assert_eq!(keep_in_bounds(point, Vec3::new(-9, 1, 99_999), 0), Vec3::new(5, 1, 5));
}

#[test]
fn value_is_mapped_in_proportion() {
    assert_eq!(map_value_to_range(54, 0, 80, 0, 1_000), 675);
    assert_eq!(map_value_to_range(0, 0, 80, 0, 1_000), 0);
    assert_eq!(map_value_to_range(80, 0, 80, 0, 1_000), 1_000);
    assert_eq!(map_value_to_range(5, 0, 10, 100, 200), 150);
    assert_eq!(map_value_to_range(15, 10, 20, -1_000, 1_000), 0);
}

#[test]
fn mapped_value_rounds_toward_the_lower_end() {
    assert_eq!(map_value_to_range(1, 0, 3, 0, 10), 3);
    assert_eq!(map_value_to_range(2, 0, 3, 0, 10), 6);
    assert_eq!(map_value_to_range(-1, 0, 3, 0, 10), -3);
    assert_eq!(map_value_to_range(1, 0, 3, 100, 110), 103);
}

#[test]
fn value_is_mapped_across_a_reversed_range() {
    assert_eq!(map_value_to_range(2, 10, 0, 0, 100), 80);
    assert_eq!(map_value_to_range(2, 0, 10, 100, 0), 80);
    assert_eq!(map_value_to_range(7, 10, 0, 0, 9), 2);
}

#[test]
fn range_of_no_width_maps_to_the_lower_end() {
    assert_eq!(map_value_to_range(5, 3, 3, 100, 200), 100);
    assert_eq!(map_value_to_range(3, 3, 3, -7, 200), -7);
}
