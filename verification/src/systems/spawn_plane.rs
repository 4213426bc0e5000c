//! The board under the playing field.

use vstd::prelude::*;
use crate::constants::plane::BLOCK_SIZE;
use crate::constants::plane::BOARD_SIZE_I;
use crate::constants::plane::BOARD_SIZE_J;
use crate::game::Game;
use crate::util::Vec3;

verus! {

/// One cell of the board.
#[derive(Clone, Copy, Debug, PartialEq, Eq, Structural)]
pub struct Cell {
    pub height: i64,
}

/// Distance between the scenes of two cells: half of `BLOCK_SIZE`.
pub const HALF_BLOCK: i64 = 7_875;

/// Height of every cell of a fresh board.
pub const CELL_HEIGHT: i64 = 0;

/// Where the scene of the cell at column `i` of row `j` is put: cells lie
/// half a block apart.
pub open spec fn cell_position(i: int, j: int) -> Vec3 {
    Vec3 { x: (i * HALF_BLOCK) as i64, y: CELL_HEIGHT, z: (j * HALF_BLOCK) as i64 }
}

/// The positions of the scenes of all cells, row after row.
pub open spec fn cell_positions() -> Seq<Vec3> {
    Seq::new(
        (BOARD_SIZE_I * BOARD_SIZE_J) as nat,
        |cell: int| cell_position(cell % (BOARD_SIZE_I as int), cell / (BOARD_SIZE_I as int)),
    )
}

/// `board` has `BOARD_SIZE_J` rows of `BOARD_SIZE_I` cells, all of them flat.
pub open spec fn is_fresh_board(board: Seq<Vec<Cell>>) -> bool {
    &&& board.len() == BOARD_SIZE_J
    &&& forall|j: int| 0 <= j < board.len() ==> (#[trigger] board[j])@.len() == BOARD_SIZE_I
    &&& forall|j: int, i: int|
        0 <= j < board.len() && 0 <= i < board[j]@.len() ==> (#[trigger] board[j]@[i]) == (Cell {
            height: CELL_HEIGHT,
        })
}

/// Lays the board out.
///
/// The game gets a fresh board. Returned is where the host puts the scene of
/// each cell, row after row.
pub fn plane_setup(game: &mut Game) -> (scenes: Vec<Vec3>)
    ensures
        is_fresh_board(final(game).board@),
        final(game).mechanics == old(game).mechanics,
        final(game).score == old(game).score,
        scenes@ == cell_positions(),
{
    let mut board: Vec<Vec<Cell>> = Vec::new();
    let mut scenes: Vec<Vec3> = Vec::new();
    assert(HALF_BLOCK == BLOCK_SIZE / 2);
    let mut j: usize = 0;
    while j < BOARD_SIZE_J
        invariant
            j <= BOARD_SIZE_J,
            board@.len() == j,
            forall|r: int| 0 <= r < board@.len() ==> (#[trigger] board@[r])@.len() == BOARD_SIZE_I,
            forall|r: int, c: int|
                0 <= r < board@.len() && 0 <= c < board@[r]@.len() ==> (#[trigger] board@[r]@[c]) == (Cell {
                    height: CELL_HEIGHT,
                }),
            scenes@.len() == j * BOARD_SIZE_I,
            scenes@ == cell_positions().take(j * BOARD_SIZE_I),
        decreases BOARD_SIZE_J - j,
    {
        let mut row: Vec<Cell> = Vec::new();
        let mut i: usize = 0;
        while i < BOARD_SIZE_I
            invariant
                i <= BOARD_SIZE_I,
                j < BOARD_SIZE_J,
                    row@.len() == i,
                forall|c: int| 0 <= c < row@.len() ==> (#[trigger] row@[c]) == (Cell { height: CELL_HEIGHT }),
                scenes@.len() == j * BOARD_SIZE_I + i,
                scenes@ == cell_positions().take(j * BOARD_SIZE_I + i),
            decreases BOARD_SIZE_I - i,
        {
            let height: i64 = CELL_HEIGHT;
            scenes.push(Vec3 { x: i as i64 * HALF_BLOCK, y: height, z: j as i64 * HALF_BLOCK });
            assert(scenes@ =~= cell_positions().take(j * BOARD_SIZE_I + i + 1));
            row.push(Cell { height });
            i += 1;
        }
        board.push(row);
        j += 1;
    }
    assert(cell_positions().take((BOARD_SIZE_I * BOARD_SIZE_J) as int) =~= cell_positions());
    game.board = board;
    scenes
}

} // verus!
