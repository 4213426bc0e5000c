use rts_units::components::mechanics::Destination;
use rts_units::components::mechanics::Rotating;
use rts_units::components::mechanics::RotationSpeed;
use rts_units::components::mechanics::Unit;
use rts_units::game::Game;
use rts_units::systems::rotation::get_heading;
use rts_units::systems::rotation::rotate_system;
use rts_units::systems::rotation::RotationDirection;
use rts_units::util::Vec3;

/// Tangent of ten degrees, in billionths.
const TAN_10: i64 = 176_326_981;

/// Tangent of twenty degrees, in billionths.
const TAN_20: i64 = 363_970_234;

/// A unit at the origin that faces `current` and turns toward a destination
/// at the offset `(dx, dz)`.
fn turning(current: i64, dx: i64, dz: i64, speed: i64) -> Unit {
    let mut unit = Unit::new(1, Vec3::new(0, 7_750, 0), 2_000, speed);
    unit.destination = Some(Destination(Vec3::new(dx, 7_750, dz)));
    unit.rotating = Some(Rotating);
    unit.direction.current = current;
    unit
}

fn after_one_tick(unit: Unit, delta_ms: u32) -> Unit {
    let mut game = Game::new(1, 1);
    let mut units = vec![unit];
    rotate_system(&mut units, &mut game, delta_ms);
    units[0]
}

#[test]
fn heading_of_equal_angles_is_clockwise() {
    assert_eq!(get_heading(0, 0), RotationDirection::CW);
    assert_eq!(get_heading(123_456, 123_456), RotationDirection::CW);
}

#[test]
fn heading_at_half_a_turn_is_clockwise_either_way() {
    assert_eq!(get_heading(0, 180_000), RotationDirection::CW);
    assert_eq!(get_heading(180_000, 0), RotationDirection::CW);
    assert_eq!(get_heading(270_000, 90_000), RotationDirection::CW);
    assert_eq!(get_heading(90_000, 270_000), RotationDirection::CW);
}

#[test]
fn heading_just_off_half_a_turn() {
    assert_eq!(get_heading(0, 179_999), RotationDirection::CW);
    assert_eq!(get_heading(0, 180_001), RotationDirection::CCW);
    assert_eq!(get_heading(179_999, 0), RotationDirection::CCW);
    assert_eq!(get_heading(180_001, 0), RotationDirection::CW);
}

#[test]
fn heading_takes_the_shorter_arc_for_all_whole_degrees() {
    for desired in 0..360i64 {
        for current in 0..360i64 {
            let clockwise = (current - desired).rem_euclid(360);
            let counter_clockwise = (desired - current).rem_euclid(360);
            let expected =
                if clockwise <= counter_clockwise { RotationDirection::CW } else { RotationDirection::CCW };
            assert_eq!(get_heading(desired * 1000, current * 1000), expected);
        }
    }
}

#[test]
fn heading_of_extreme_angles() {
    assert_eq!(get_heading(i64::MIN, i64::MAX), RotationDirection::CCW);
    assert_eq!(get_heading(i64::MAX, i64::MIN), RotationDirection::CW);
}

#[test]
fn unit_turns_clockwise_by_its_speed() {
    let turned = after_one_tick(turning(90_000, 5_000, 0, 150_000), 100);
    assert_eq!(turned.direction.desired, 0);
    assert_eq!(turned.direction.current, 75_000);
    assert_eq!(turned.rotating, Some(Rotating));
}

#[test]
fn unit_turns_counter_clockwise_by_its_speed() {
    let turned = after_one_tick(turning(10_000, 0, 5_000, 150_000), 100);
    assert_eq!(turned.direction.desired, 90_000);
    assert_eq!(turned.direction.current, 25_000);
    assert_eq!(turned.rotating, Some(Rotating));
}

#[test]
fn turn_step_rounds_toward_zero() {
    let turned = after_one_tick(turning(10_000, 0, 5_000, 1_999), 1);
    assert_eq!(turned.direction.current, 10_001);
}

#[test]
fn bearing_below_the_axis_is_counted_all_the_way_round() {
    let turned = after_one_tick(turning(200_000, 0, -5_000, 150_000), 100);
    assert_eq!(turned.direction.desired, 270_000);
    assert_eq!(turned.direction.current, 215_000);
}

#[test]
fn angle_below_zero_wraps_to_a_full_turn() {
    let turned = after_one_tick(turning(0, 0, -5_000, 150_000), 100);
    assert_eq!(turned.direction.current, 360_000);
    assert_eq!(turned.rotating, Some(Rotating));
}

#[test]
fn angle_above_a_full_turn_wraps_to_zero() {
    let turned = after_one_tick(turning(359_000, 1_000_000_000, TAN_10, 150_000), 100);
    assert_eq!(turned.direction.desired, 10_000);
    assert_eq!(turned.direction.current, 0);
    assert_eq!(turned.rotating, Some(Rotating));
}

#[test]
fn angle_of_exactly_a_full_turn_wraps_to_zero() {
    let turned = after_one_tick(turning(350_000, 1_000_000_000, TAN_20, 100_000), 100);
    assert_eq!(turned.direction.desired, 20_000);
    assert_eq!(turned.direction.current, 0);
}

#[test]
fn unit_aligns_when_the_rounded_angles_agree() {
    let turned = after_one_tick(turning(10_700, 1_000_000_000, TAN_10, 3_000), 100);
    assert_eq!(turned.direction.current, 10_400);
    assert_eq!(turned.rotating, None);
}

#[test]
fn half_a_degree_rounds_away_from_zero() {
    let turned = after_one_tick(turning(10_800, 1_000_000_000, TAN_10, 3_000), 100);
    assert_eq!(turned.direction.current, 10_500);
    assert_eq!(turned.rotating, Some(Rotating));
    let turned = after_one_tick(turning(9_200, 1_000_000_000, TAN_10, 3_000), 100);
    assert_eq!(turned.direction.current, 9_500);
    assert_eq!(turned.rotating, None);
}

#[test]
fn unit_turns_until_it_is_aligned() {
    let mut game = Game::new(1, 1);
    let mut units = vec![turning(200_000, 3_000, 3_000, 50_000)];
    let mut ticks = 0;
    while units[0].rotating.is_some() {
        rotate_system(&mut units, &mut game, 16);
        ticks += 1;
        assert!(ticks < 1_000);
    }
    assert_eq!(units[0].direction.desired, 45_000);
    assert_eq!(units[0].direction.current, 200_000 - 194 * 800);
    assert_eq!(ticks, 194);
}

#[test]
fn aligned_unit_rests() {
    let aligned = after_one_tick(turning(10_700, 1_000_000_000, TAN_10, 3_000), 100);
    assert_eq!(aligned.rotating, None);
    let mut game = Game::new(1, 1);
    let mut units = vec![aligned];
    for delta_ms in [1, 16, 100, 1_000, u32::MAX] {
        rotate_system(&mut units, &mut game, delta_ms);
        assert_eq!(units[0], aligned);
    }
}

#[test]
fn unit_without_destination_does_not_turn() {
    let mut unit = turning(90_000, 5_000, 0, 150_000);
    unit.destination = None;
    assert_eq!(after_one_tick(unit, 100), unit);
}

#[test]
fn unit_without_rotation_speed_does_not_turn() {
    let mut unit = turning(90_000, 5_000, 0, 150_000);
    unit.rotation_speed = None;
    assert_eq!(after_one_tick(unit, 100), unit);
}

#[test]
fn unit_without_the_mark_does_not_turn() {
    let mut unit = turning(90_000, 5_000, 0, 150_000);
    unit.rotating = None;
    assert_eq!(after_one_tick(unit, 100), unit);
}

#[test]
fn turning_waits_for_the_cooldown() {
    let mut game = Game::new(100, 50);
    let mut units = vec![turning(90_000, 5_000, 0, 150_000)];
    rotate_system(&mut units, &mut game, 49);
    assert_eq!(units[0].direction.current, 90_000);
    assert_eq!(game.mechanics.rotate_cooldown.elapsed_ms(), 49);
    assert_eq!(game.mechanics.move_cooldown.elapsed_ms(), 0);
    rotate_system(&mut units, &mut game, 1);
    assert_eq!(units[0].direction.current, 90_000 - 150);
    assert_eq!(game.mechanics.rotate_cooldown.elapsed_ms(), 0);
}

#[test]
fn turning_at_the_largest_values() {
    let limit = 1_000_000_000_000;
    let mut unit = turning(limit, limit, limit, limit);
    unit.position = Vec3::new(-limit, 0, -limit);
    let turned = after_one_tick(unit, u32::MAX);
    assert_eq!(turned.direction.desired, 45_000);
    assert_eq!(turned.direction.current, 0);
    unit.direction.current = -limit;
    unit.rotation_speed = Some(RotationSpeed { value: -limit });
    let turned = after_one_tick(unit, u32::MAX);
    assert_eq!(turned.direction.current, 0);
}
