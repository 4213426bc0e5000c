//! The playing field.

use vstd::prelude::*;
use crate::util::Bounds2D;

verus! {

/// Cells of the board along X.
pub const BOARD_SIZE_I: usize = 3;

/// Cells of the board along Z.
pub const BOARD_SIZE_J: usize = 3;

/// Edge length of one board cell.
pub const BLOCK_SIZE: i64 = 15_750;

pub const GAME_X_MIN: i64 = 0;

pub const GAME_Z_MIN: i64 = 0;

pub const GAME_X_MAX: i64 = 24_000;

pub const GAME_Z_MAX: i64 = 24_000;

/// The rectangle that every unit and the pointer stay in.
pub open spec fn spec_game_bounds() -> Bounds2D {
    Bounds2D { min_x: GAME_X_MIN, min_z: GAME_Z_MIN, max_x: GAME_X_MAX, max_z: GAME_Z_MAX }
}

/// The rectangle that every unit and the pointer stay in.
#[verifier::when_used_as_spec(spec_game_bounds)]
pub fn game_bounds() -> (bounds: Bounds2D)
    ensures
        bounds == spec_game_bounds(),
{
    Bounds2D { min_x: GAME_X_MIN, min_z: GAME_Z_MIN, max_x: GAME_X_MAX, max_z: GAME_Z_MAX }
}

/// Margin that moving units keep from the edge of the field.
pub const EDGE_PADDING: i64 = 2_000;

} // verus!
