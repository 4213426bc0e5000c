use rts_units::components::mechanics::Destination;
use rts_units::components::mechanics::Rotating;
use rts_units::components::mechanics::Selected;
use rts_units::components::mechanics::Unit;
use rts_units::constants::constants::GROUND_LEVEL;
use rts_units::game::Game;
use rts_units::plugins::cursor::mouse_system;
use rts_units::plugins::cursor::selection_system;
use rts_units::plugins::cursor::Cursor;
use rts_units::simulation::tick;
use rts_units::simulation::PointerInput;
use rts_units::systems::bearing::bearing;
use rts_units::systems::movement::adjust_still_units_system;
use rts_units::systems::movement::movement_system;
use rts_units::systems::movement::steering_system;
use rts_units::systems::rotation::rotate_system;
use rts_units::util::Vec3;

fn grounded(x: i64, z: i64) -> Vec3 {
    Vec3::new(x, GROUND_LEVEL, z)
}

fn moved_to(x: i64, z: i64) -> PointerInput {
    PointerInput { pointer: Some(Vec3::new(x, 0, z)), just_pressed: false, just_released: false }
}

fn pressed_at(x: i64, z: i64) -> PointerInput {
    PointerInput { pointer: Some(Vec3::new(x, 0, z)), just_pressed: true, just_released: false }
}

fn released() -> PointerInput {
    PointerInput { pointer: None, just_pressed: false, just_released: true }
}

fn two_tanks() -> Vec<Unit> {
    vec![Unit::new(1, grounded(4_000, 5_000), 2_000, 150_000), Unit::new(2, grounded(5_000, 8_000), 2_000, 150_000)]
}

#[test]
fn steering_moves_travelling_and_idle_units_in_one_pass() {
    let mut game = Game::new(1, 1);
    let mut traveller = Unit::new(1, grounded(5_000, 5_000), 1_000, 0);
    traveller.destination = Some(Destination(grounded(9_000, 5_000)));
    let idler = Unit::new(2, grounded(5_600, 5_000), 1_000, 0);
    let mut units = vec![traveller, idler];
    steering_system(&mut units, &mut game, 1_000);
    assert_eq!(units[0].position, grounded(7_800, 5_000));
    assert_eq!(units[1].position, grounded(6_400, 5_000));
    assert_eq!(game.mechanics.move_cooldown.elapsed_ms(), 0);
}

#[test]
fn steering_in_two_passes_shows_the_second_pass_where_the_first_went() {
    let mut game = Game::new(1, 1);
    let mut traveller = Unit::new(1, grounded(5_000, 5_000), 1_000, 0);
    traveller.destination = Some(Destination(grounded(9_000, 5_000)));
    let idler = Unit::new(2, grounded(5_600, 5_000), 1_000, 0);
    let mut units = vec![traveller, idler];
    movement_system(&mut units, &mut game, 1_000);
    adjust_still_units_system(&mut units, &mut game, 1_000);
    assert_eq!(units[0].position, grounded(7_800, 5_000));
    assert_eq!(units[1].position, grounded(5_600, 5_000));
}

#[test]
fn steering_lets_a_unit_arrive() {
    let mut game = Game::new(1, 1);
    let mut traveller = Unit::new(1, grounded(8_800, 5_000), 2_000, 0);
    traveller.destination = Some(Destination(grounded(9_000, 5_000)));
    let mut units = vec![traveller];
    steering_system(&mut units, &mut game, 250);
    assert_eq!(units[0].position, grounded(8_900, 5_000));
    assert_eq!(units[0].destination, None);
}

#[test]
fn steering_leaves_immobile_units_alone() {
    let mut game = Game::new(1, 1);
    let mut post = Unit::new(1, Vec3::new(5_000, 0, 5_000), 0, 0);
    post.movement_speed = None;
    let mut units = vec![post, Unit::new(2, grounded(5_600, 5_000), 1_000, 0)];
    steering_system(&mut units, &mut game, 1_000);
    assert_eq!(units[0], post);
    assert_eq!(units[1].position, grounded(5_600, 5_000));
}

#[test]
fn steering_system_waits_for_the_cooldown() {
    let mut game = Game::new(100, 100);
    let mut units = vec![Unit::new(1, Vec3::new(5_000, 0, 5_000), 1_000, 0)];
    steering_system(&mut units, &mut game, 99);
    assert_eq!(units[0].position, Vec3::new(5_000, 0, 5_000));
    steering_system(&mut units, &mut game, 1);
    assert_eq!(units[0].position, grounded(5_000, 5_000));
}

#[test]
fn drag_then_click_sends_the_selection_on_its_way() {
    let mut game = Game::new(1, 1);
    let mut cursor = Cursor::new();
    let mut units = two_tanks();
    units.push(Unit::new(3, grounded(10_000, 10_000), 2_000, 150_000));

    assert!(tick(&mut game, &mut cursor, &mut units, pressed_at(2_000, 2_000), 0).is_none());
    assert!(tick(&mut game, &mut cursor, &mut units, moved_to(6_000, 9_000), 0).is_none());
    let outline = tick(&mut game, &mut cursor, &mut units, released(), 0);
    assert!(outline.is_some());
    assert!(!cursor.selection.just_selected);
    assert_eq!(cursor.xyz1, Vec3::new(2_000, 7_750, 2_000));
    assert_eq!(cursor.xyz2, Vec3::new(6_000, 7_950, 9_000));
    assert_eq!(units[0].selected, Some(Selected));
    assert_eq!(units[1].selected, Some(Selected));
    assert_eq!(units[2].selected, None);
    assert!(cursor.is_selected(1) && cursor.is_selected(2) && !cursor.is_selected(3));

    assert!(tick(&mut game, &mut cursor, &mut units, pressed_at(20_000, 20_000), 100).is_none());
    let target = Vec3::new(20_000, 0, 20_000);
    assert_eq!(units[0].destination, Some(Destination(target)));
    assert_eq!(units[1].destination, Some(Destination(target)));
    assert_eq!(units[2].destination, None);
    assert!(units.iter().all(|unit| unit.selected.is_none()));
    assert!(cursor.selection.selected_units.is_empty());

    assert_eq!(units[0].position, grounded(7_200, 8_000));
    assert_eq!(units[1].position, grounded(8_000, 10_400));
    assert_eq!(units[2].position, grounded(10_000, 10_000));
    assert_eq!(units[0].direction.desired, bearing(&grounded(7_200, 8_000), &target));
    assert_eq!(units[0].direction.current, 15_000);
    assert_eq!(units[0].rotating, Some(Rotating));
    assert_eq!(units[2].direction.current, 0);
}

#[test]
fn tick_runs_input_confirmation_steering_and_turning_in_order() {
    let inputs = [
        (pressed_at(2_000, 2_000), 16),
        (moved_to(6_000, 9_000), 16),
        (released(), 16),
        (pressed_at(7_000, 3_000), 16),
        (moved_to(7_000, 3_000), 40),
        (released(), 7),
        (moved_to(1_000, 1_000), 100),
    ];
    let mut game = Game::new(10, 25);
    let mut cursor = Cursor::new();
    let mut units = two_tanks();
    let mut game_by_hand = Game::new(10, 25);
    let mut cursor_by_hand = Cursor::new();
    let mut units_by_hand = two_tanks();
    for (input, delta_ms) in inputs {
        let outline = tick(&mut game, &mut cursor, &mut units, input, delta_ms);

        mouse_system(&mut cursor_by_hand, &mut units_by_hand, input.pointer, input.just_pressed, input.just_released);
        let outline_by_hand = selection_system(&mut cursor_by_hand, &mut units_by_hand);
        steering_system(&mut units_by_hand, &mut game_by_hand, delta_ms);
        rotate_system(&mut units_by_hand, &mut game_by_hand, delta_ms);

        assert_eq!(units, units_by_hand);
        assert_eq!(outline.map(|shown| shown.lines), outline_by_hand.map(|shown| shown.lines));
        assert_eq!(cursor.location, cursor_by_hand.location);
        assert_eq!(cursor.selection.selected_units, cursor_by_hand.selection.selected_units);
        assert_eq!(game.mechanics.move_cooldown.elapsed_ms(), game_by_hand.mechanics.move_cooldown.elapsed_ms());
        assert_eq!(game.mechanics.rotate_cooldown.elapsed_ms(), game_by_hand.mechanics.rotate_cooldown.elapsed_ms());
    }
    assert_eq!(units[0].destination, Some(Destination(Vec3::new(7_000, 0, 3_000))));
    assert_ne!(units[0].position, grounded(4_000, 5_000));
    assert_ne!(units[0].direction.current, 0);
}

#[test]
fn tick_without_input_only_steers_and_turns() {
    let mut game = Game::new(1, 1);
    let mut cursor = Cursor::new();
    let mut units = vec![Unit::new(1, Vec3::new(5_000, 0, 5_000), 2_000, 150_000)];
    let idle = PointerInput { pointer: None, just_pressed: false, just_released: false };
    assert!(tick(&mut game, &mut cursor, &mut units, idle, 16).is_none());
    assert_eq!(units[0].position, grounded(5_000, 5_000));
    assert_eq!(units[0].direction.current, 0);
    assert!(!cursor.pressed);
    assert_eq!(cursor.location.xyz, Vec3::new(0, 0, 0));
}

#[test]
fn tick_confirms_an_empty_rectangle_once() {
    let mut game = Game::new(1, 1);
    let mut cursor = Cursor::new();
    let mut units = vec![Unit::new(1, grounded(20_000, 20_000), 2_000, 150_000)];
    tick(&mut game, &mut cursor, &mut units, pressed_at(2_000, 2_000), 16);
    tick(&mut game, &mut cursor, &mut units, moved_to(6_000, 9_000), 16);
    assert!(tick(&mut game, &mut cursor, &mut units, released(), 16).is_some());
    assert!(tick(&mut game, &mut cursor, &mut units, moved_to(6_000, 9_000), 16).is_none());
    assert!(cursor.selection.selected_units.is_empty());
    assert_eq!(units[0].selected, None);
}
