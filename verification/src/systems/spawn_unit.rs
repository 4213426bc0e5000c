//! Where new units are put.
//!
//! A spawn request puts a group of units on a square grid beside the pointer.
//! The host creates what is drawn; these rules say where each unit stands and
//! what it can do.

use vstd::prelude::*;
use vstd::arithmetic::power2::pow2;
use crate::components::mechanics::Unit;
use crate::constants::constants::GROUND_LEVEL;
use crate::constants::units::SOCIAL_DISTANCE;
use crate::fixed::within_limit;
use crate::plugins::cursor::Cursor;
use crate::util::Vec3;

verus! {

/// How many units one spawn request asks for.
pub const NUMBER_OF_UNITS_TO_SPAWN: i32 = 500;

/// Size of a spawned unit, and what it adds to the spacing of the grid.
pub const SPAWN_SCALE: i64 = 2_000;

/// Movement speed of a tank.
pub const TANK_MOVEMENT_SPEED: i64 = 2_000;

/// Rotation speed of a tank.
pub const TANK_ROTATION_SPEED: i64 = 150_000;

/// Cells along one side of the grid for `units_to_spawn` units: the binary
/// logarithm of the number, rounded up; none for one unit or fewer.
pub open spec fn grid_side(units_to_spawn: int) -> nat
    decreases units_to_spawn,
{
    if units_to_spawn <= 1 {
        0
    } else {
        1 + grid_side((units_to_spawn + 1) / 2)
    }
}

/// How many units a spawn request for `units_to_spawn` puts down: one for
/// every cell of the grid, but no more than were asked for.
pub open spec fn grid_count(units_to_spawn: int) -> nat {
    let cells = grid_side(units_to_spawn) * grid_side(units_to_spawn);
    if 0 <= units_to_spawn < cells {
        units_to_spawn as nat
    } else {
        cells
    }
}

/// One coordinate of the cell at `step` along a side: cells lie one world
/// unit and one `scale` apart, and the grid is shifted back by all but one
/// `scale` per cell of a side and forward by `SOCIAL_DISTANCE`.
pub open spec fn grid_coordinate(origin: int, step: int, side: int, scale: int) -> int {
    origin + step * 1000 + SOCIAL_DISTANCE + step * scale - (side * scale - scale)
}

/// The X and Z of the cell numbered `cell`, counting along Z first.
pub open spec fn grid_cell(cell: int, units_to_spawn: int, x: int, z: int, scale: int) -> (i64, i64) {
    let side = grid_side(units_to_spawn) as int;
    (
        grid_coordinate(x, cell / side, side, scale) as i64,
        grid_coordinate(z, cell % side, side, scale) as i64,
    )
}

/// The X and Z of every unit of a spawn request, in the order of spawning.
pub open spec fn grid_positions(units_to_spawn: int, x: int, z: int, scale: int) -> Seq<(i64, i64)> {
    Seq::new(grid_count(units_to_spawn), |cell: int| grid_cell(cell, units_to_spawn, x, z, scale))
}

/// A tank as it enters the world: on the ground at `(x, z)`, pickable, with
/// the speeds of a tank, and neither destination nor selection.
pub open spec fn tank(id: u64, x: i64, z: i64) -> Unit {
    Unit {
        id,
        position: Vec3 { x, y: GROUND_LEVEL, z },
        direction: crate::components::mechanics::Direction { desired: 0, current: 0 },
        movement_speed: Some(crate::components::mechanics::MovementSpeed { value: TANK_MOVEMENT_SPEED }),
        rotation_speed: Some(crate::components::mechanics::RotationSpeed { value: TANK_ROTATION_SPEED }),
        destination: None,
        rotating: None,
        selected: None,
        pickable: Some(crate::components::mechanics::Pickable),
    }
}

/// The side of the grid is the least exponent whose power of two reaches the
/// number of units.
pub proof fn lemma_grid_side_is_rounded_logarithm(units_to_spawn: int)
    requires
        units_to_spawn >= 1,
    ensures
        units_to_spawn <= pow2(grid_side(units_to_spawn)),
        grid_side(units_to_spawn) > 0 ==> pow2((grid_side(units_to_spawn) - 1) as nat) < units_to_spawn,
    decreases units_to_spawn,
{
    vstd::arithmetic::power2::lemma2_to64();
    if units_to_spawn > 1 {
        let half = (units_to_spawn + 1) / 2;
        lemma_grid_side_is_rounded_logarithm(half);
        let k = grid_side(half);
        vstd::arithmetic::power2::lemma_pow2_unfold(k + 1);
        if k > 0 {
            vstd::arithmetic::power2::lemma_pow2_unfold(k);
        }
    }
}

/// No request for a 32-bit number of units needs a side of more than 31 cells.
proof fn lemma_grid_side_is_small(units_to_spawn: int, budget: nat)
    requires
        units_to_spawn <= pow2(budget),
    ensures
        grid_side(units_to_spawn) <= budget,
    decreases budget,
{
    vstd::arithmetic::power2::lemma2_to64();
    if units_to_spawn > 1 {
        if budget == 0 {
        } else {
            vstd::arithmetic::power2::lemma_pow2_unfold(budget);
            lemma_grid_side_is_small((units_to_spawn + 1) / 2, (budget - 1) as nat);
        }
    }
}

/// Cells along one side of the grid for `units_to_spawn` units.
fn side_of_grid(units_to_spawn: i32) -> (side: i64)
    ensures
        side == grid_side(units_to_spawn as int),
        0 <= side <= 31,
{
    let mut left: i64 = units_to_spawn as i64;
    let mut side: i64 = 0;
    proof {
        vstd::arithmetic::power2::lemma2_to64();
        lemma_grid_side_is_small(units_to_spawn as int, 31);
    }
    while left > 1
        invariant
            0 <= side,
            left <= i32::MAX,
            grid_side(units_to_spawn as int) == side + grid_side(left as int),
            grid_side(units_to_spawn as int) <= 31,
        decreases left,
    {
        left = (left + 1) / 2;
        side += 1;
    }
    side
}

/// A tank as it enters the world at `(x, z)`.
pub fn spawn_tank(id: u64, x: i64, z: i64) -> (unit: Unit)
    ensures
        unit == tank(id, x, z),
{
    Unit::new(id, Vec3 { x, y: GROUND_LEVEL, z }, TANK_MOVEMENT_SPEED, TANK_ROTATION_SPEED)
}

/// Where the units of a spawn request stand: on a square grid beside `(x, z)`.
pub fn spawn_units_in_grid(units_to_spawn: i32, x: i64, z: i64, scale: i64) -> (positions: Vec<(i64, i64)>)
    requires
        within_limit(x as int),
        within_limit(z as int),
        within_limit(scale as int),
    ensures
        positions@ == grid_positions(units_to_spawn as int, x as int, z as int, scale as int),
{
    let num_of_iters: i64 = side_of_grid(units_to_spawn);
    let ghost wanted = grid_positions(units_to_spawn as int, x as int, z as int, scale as int);
    let mut positions: Vec<(i64, i64)> = Vec::new();
    if num_of_iters == 0 {
        assert(0 * 0 == 0) by (nonlinear_arith);
        assert(positions@ =~= wanted);
        return positions;
    }
    assert(-32_000_000_000_000 <= num_of_iters * scale <= 32_000_000_000_000) by (nonlinear_arith)
        requires
            0 <= num_of_iters <= 31,
            -1_000_000_000_000 <= scale <= 1_000_000_000_000,
    ;
    let group_offset: i64 = num_of_iters * scale - scale;
    let mut i: i64 = 0;
    assert(0 * num_of_iters == 0) by (nonlinear_arith);
    while i < num_of_iters
        invariant
            0 <= i <= num_of_iters <= 31,
            units_to_spawn >= 2,
            num_of_iters == grid_side(units_to_spawn as int),
            group_offset == num_of_iters * scale - scale,
            within_limit(x as int),
            within_limit(z as int),
            within_limit(scale as int),
            wanted == grid_positions(units_to_spawn as int, x as int, z as int, scale as int),
            positions@.len() == (if units_to_spawn < i * num_of_iters {
                units_to_spawn as int
            } else {
                i * num_of_iters
            }),
            positions@.len() <= wanted.len(),
            positions@ == wanted.take(positions@.len() as int),
        decreases num_of_iters - i,
    {
        let mut j: i64 = 0;
        assert(i * num_of_iters + num_of_iters == (i + 1) * num_of_iters) by (nonlinear_arith);
        assert(0 <= i * num_of_iters <= 31 * 31 && (i + 1) * num_of_iters <= num_of_iters * num_of_iters)
            by (nonlinear_arith)
            requires
                0 <= i < num_of_iters <= 31,
        ;
        while j < num_of_iters && i * num_of_iters + j < units_to_spawn as i64
            invariant
                0 <= i < num_of_iters <= 31,
                0 <= j <= num_of_iters,
                units_to_spawn >= 2,
                0 <= i * num_of_iters <= 31 * 31,
                (i + 1) * num_of_iters <= num_of_iters * num_of_iters,
                i * num_of_iters + num_of_iters == (i + 1) * num_of_iters,
                num_of_iters == grid_side(units_to_spawn as int),
                group_offset == num_of_iters * scale - scale,
                within_limit(x as int),
                within_limit(z as int),
                within_limit(scale as int),
                wanted == grid_positions(units_to_spawn as int, x as int, z as int, scale as int),
                positions@.len() == (if units_to_spawn < i * num_of_iters + j {
                    units_to_spawn as int
                } else {
                    i * num_of_iters + j
                }),
                positions@.len() <= wanted.len(),
                positions@ == wanted.take(positions@.len() as int),
            decreases num_of_iters - j,
        {
            let ghost cell = i * num_of_iters + j;
            assert(-32_000_000_000_000 <= i * scale <= 32_000_000_000_000 && -32_000_000_000_000 <= j * scale
                <= 32_000_000_000_000 && -32_000_000_000_000 <= num_of_iters * scale <= 32_000_000_000_000)
                by (nonlinear_arith)
                requires
                    0 <= i <= 31,
                    0 <= j <= 31,
                    0 <= num_of_iters <= 31,
                    -1_000_000_000_000 <= scale <= 1_000_000_000_000,
            ;
            let adjusted_x: i64 = x + i * 1000 + SOCIAL_DISTANCE + i * scale - group_offset;
            let adjusted_z: i64 = z + j * 1000 + SOCIAL_DISTANCE + j * scale - group_offset;
            proof {
                vstd::arithmetic::div_mod::lemma_fundamental_div_mod_converse(
                    cell,
                    num_of_iters as int,
                    i as int,
                    j as int,
                );
                assert(cell < grid_count(units_to_spawn as int));
                assert(wanted[cell] == (adjusted_x, adjusted_z));
            }
            positions.push((adjusted_x, adjusted_z));
            assert(positions@ =~= wanted.take(cell + 1));
            j += 1;
        }
        i += 1;
    }
    assert(positions@.len() == wanted.len());
    assert(wanted.take(wanted.len() as int) =~= wanted);
    positions
}

/// Answers a spawn request.
///
/// Where the button that spawns was just pressed, this gives the X and Z of
/// `NUMBER_OF_UNITS_TO_SPAWN` units on a grid beside the pointer; otherwise
/// nothing is spawned.
pub fn spawn_unit(cursor: &Cursor, just_pressed: bool) -> (positions: Vec<(i64, i64)>)
    requires
        cursor@.wf(),
    ensures
        positions@ == (if just_pressed {
            grid_positions(
                NUMBER_OF_UNITS_TO_SPAWN as int,
                cursor@.location.x as int,
                cursor@.location.z as int,
                SPAWN_SCALE as int,
            )
        } else {
            Seq::empty()
        }),
{
    if just_pressed {
        spawn_units_in_grid(NUMBER_OF_UNITS_TO_SPAWN, cursor.location.xyz.x, cursor.location.xyz.z, SPAWN_SCALE)
    } else {
        Vec::new()
    }
}

} // verus!
