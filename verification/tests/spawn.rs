use rts_units::components::mechanics::MovementSpeed;
use rts_units::components::mechanics::Pickable;
use rts_units::components::mechanics::RotationSpeed;
use rts_units::game::Game;
use rts_units::plugins::cursor::mouse_system;
use rts_units::plugins::cursor::Cursor;
use rts_units::systems::spawn_plane::plane_setup;
use rts_units::systems::spawn_plane::Cell;
use rts_units::systems::spawn_unit::spawn_tank;
use rts_units::systems::spawn_unit::spawn_unit;
use rts_units::systems::spawn_unit::spawn_units_in_grid;
use rts_units::util::Vec3;

#[test]
fn grid_for_one_unit_or_fewer_is_empty() {
    assert!(spawn_units_in_grid(1, 5_000, 5_000, 2_000).is_empty());
    assert!(spawn_units_in_grid(0, 5_000, 5_000, 2_000).is_empty());
    assert!(spawn_units_in_grid(-3, 5_000, 5_000, 2_000).is_empty());
    assert!(spawn_units_in_grid(i32::MIN, 5_000, 5_000, 2_000).is_empty());
}

#[test]
fn grid_for_two_units_has_one_cell() {
    assert_eq!(spawn_units_in_grid(2, 5_000, 7_000, 2_000), vec![(6_500, 8_500)]);
}

#[test]
fn grid_for_four_units_is_two_by_two() {
    assert_eq!(
        spawn_units_in_grid(4, 5_000, 7_000, 2_000),
        vec![(4_500, 6_500), (4_500, 9_500), (7_500, 6_500), (7_500, 9_500)]
    );
}

#[test]
fn grid_stops_at_the_number_asked_for() {
    assert_eq!(
        spawn_units_in_grid(5, 0, 0, 2_000),
        vec![(-2_500, -2_500), (-2_500, 500), (-2_500, 3_500), (500, -2_500), (500, 500)]
    );
    assert_eq!(spawn_units_in_grid(3, 0, 0, 2_000).len(), 3);
}

#[test]
fn grid_side_is_the_rounded_up_logarithm() {
    assert_eq!(spawn_units_in_grid(500, 0, 0, 2_000).len(), 81);
    assert_eq!(spawn_units_in_grid(512, 0, 0, 2_000).len(), 81);
    assert_eq!(spawn_units_in_grid(513, 0, 0, 2_000).len(), 100);
    assert_eq!(spawn_units_in_grid(8, 0, 0, 2_000).len(), 8);
    assert_eq!(spawn_units_in_grid(9, 0, 0, 2_000).len(), 9);
    assert_eq!(spawn_units_in_grid(16, 0, 0, 2_000).len(), 16);
    assert_eq!(spawn_units_in_grid(17, 0, 0, 2_000).len(), 17);
    assert_eq!(spawn_units_in_grid(i32::MAX, 0, 0, 2_000).len(), 961);
}

#[test]
fn grid_of_a_spawn_request_ends_at_its_far_corner() {
    let positions = spawn_units_in_grid(500, 10_000, 12_000, 2_000);
    assert_eq!(positions[0], (10_000 + 1_500 - 16_000, 12_000 + 1_500 - 16_000));
    assert_eq!(positions[80], (10_000 + 8 * 3_000 + 1_500 - 16_000, 12_000 + 8 * 3_000 + 1_500 - 16_000));
    assert_eq!(positions[9], (10_000 + 3_000 + 1_500 - 16_000, 12_000 + 1_500 - 16_000));
}

#[test]
fn grid_with_a_negative_scale() {
    assert_eq!(spawn_units_in_grid(4, 0, 0, -1_000), vec![(2_500, 2_500), (2_500, 2_500), (2_500, 2_500), (2_500, 2_500)]);
}

#[test]
fn spawn_request_is_answered_at_the_pointer() {
    let mut cursor = Cursor::new();
    let mut units = Vec::new();
    mouse_system(&mut cursor, &mut units, Some(Vec3::new(10_000, 8_050, 12_000)), false, false);
    assert!(spawn_unit(&cursor, false).is_empty());
    assert_eq!(spawn_unit(&cursor, true), spawn_units_in_grid(500, 10_000, 12_000, 2_000));
}

#[test]
fn tank_enters_the_world_on_the_ground() {
    let tank = spawn_tank(7, 3_000, 4_000);
    assert_eq!(tank.id, 7);
    assert_eq!(tank.position, Vec3::new(3_000, 7_750, 4_000));
    assert_eq!(tank.movement_speed, Some(MovementSpeed { value: 2_000 }));
    assert_eq!(tank.rotation_speed, Some(RotationSpeed { value: 150_000 }));
    assert_eq!(tank.pickable, Some(Pickable));
    assert!(tank.destination.is_none() && tank.rotating.is_none() && tank.selected.is_none());
}

#[test]
fn board_is_laid_out_row_after_row() {
    let mut game = Game::new(10, 20);
    game.score = 5;
    let scenes = plane_setup(&mut game);
    assert_eq!(game.board, vec![vec![Cell { height: 0 }; 3]; 3]);
    assert_eq!(game.score, 5);
    assert_eq!(game.mechanics.rotate_cooldown.duration_ms(), 20);
    assert_eq!(
        scenes,
        vec![
            Vec3::new(0, 0, 0),
            Vec3::new(7_875, 0, 0),
            Vec3::new(15_750, 0, 0),
            Vec3::new(0, 0, 7_875),
            Vec3::new(7_875, 0, 7_875),
            Vec3::new(15_750, 0, 7_875),
            Vec3::new(0, 0, 15_750),
            Vec3::new(7_875, 0, 15_750),
            Vec3::new(15_750, 0, 15_750),
        ]
    );
}

#[test]
fn board_is_laid_out_anew() {
    let mut game = Game::new(10, 20);
    plane_setup(&mut game);
    game.board[1][1].height = 9;
    plane_setup(&mut game);
    assert_eq!(game.board.len(), 3);
    assert_eq!(game.board[1][1], Cell { height: 0 });
}

#[test]
fn new_game_has_fresh_cooldowns() {
    let game = Game::new(10, 20);
    assert!(game.board.is_empty());
    assert_eq!(game.score, 0);
    assert_eq!(game.mechanics.move_cooldown.duration_ms(), 10);
    assert_eq!(game.mechanics.move_cooldown.elapsed_ms(), 0);
    assert_eq!(game.mechanics.rotate_cooldown.duration_ms(), 20);
    assert_eq!(game.mechanics.direction.current, 0);
    assert_eq!(game.mechanics.direction.desired, 0);
}
