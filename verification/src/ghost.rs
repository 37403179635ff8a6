use vstd::prelude::*;

use crate::board::{board_check_block_position, fits, lemma_fits_on_board, lemma_on_board_bounds, Board, DOT_SIZE};
use crate::common_component::ActiveBlock;
use crate::tetromino::{Kind, State};

verus! {

/// The world height at which a piece anchored at `x`, `y` comes to rest when
/// it falls cell by cell as long as it fits one cell further down.
pub open spec fn landing_y(board: Board, x: int, y: int, kind: Kind, state: State) -> int
    decreases y + 20000,
{
    if y > -10000 && fits(board, x, y - DOT_SIZE, kind, state) {
        landing_y(board, x, y - DOT_SIZE, kind, state)
    } else {
        y
    }
}

/// The world height of the ghost of `piece`: where the piece would come to
/// rest if it fell straight down from where it is.
pub fn ghost_position(board: &Board, piece: &ActiveBlock) -> (ghost_y: i32)
    ensures
        ghost_y == landing_y(
            *board,
            piece.x as int,
            piece.y as int,
            piece.block.kind_of(),
            piece.block.state_of(),
        ),
{
    let mut ghost_y: i32 = piece.y;
    loop
        invariant
            ghost_y <= piece.y,
            landing_y(*board, piece.x as int, ghost_y as int, piece.block.kind_of(), piece.block.state_of())
                == landing_y(
                *board,
                piece.x as int,
                piece.y as int,
                piece.block.kind_of(),
                piece.block.state_of(),
            ),
        decreases ghost_y + 20000,
    {
        if ghost_y <= -10000 {
            return ghost_y;
        }
        if !board_check_block_position(board, piece.x, ghost_y - DOT_SIZE, &piece.block) {
            return ghost_y;
        }
        ghost_y = ghost_y - DOT_SIZE;
    }
}

/// The piece rests where it lands: it has fallen a whole number of cells and
/// does not fit one cell further down. The bound on the height in `landing_y`
/// only serves to end the fall in the definition: a piece that fits lies on
/// the board, far above that bound.
pub proof fn lemma_landing_rests(board: Board, x: int, y: int, kind: Kind, state: State)
    ensures
        landing_y(board, x, y, kind, state) <= y,
        !fits(board, x, landing_y(board, x, y, kind, state) - DOT_SIZE, kind, state),
        (y - landing_y(board, x, y, kind, state)) % (DOT_SIZE as int) == 0,
    decreases y + 20000,
{
    if fits(board, x, y - DOT_SIZE, kind, state) {
        lemma_fits_on_board(board, x, y - DOT_SIZE, kind, state);
        lemma_on_board_bounds(x, y - DOT_SIZE, kind, state);
    }
    if y > -10000 && fits(board, x, y - DOT_SIZE, kind, state) {
        lemma_landing_rests(board, x, y - DOT_SIZE, kind, state);
        let l = landing_y(board, x, y - DOT_SIZE, kind, state);
        assert((y - l) % 250 == 0) by (nonlinear_arith)
            requires
                (y - 250 - l) % 250 == 0,
        ;
    }
}

/// On the way down to where it rests the piece fits at every cell.
pub proof fn lemma_landing_path_fits(board: Board, x: int, y: int, kind: Kind, state: State, k: int)
    requires
        1 <= k,
        y - k * DOT_SIZE >= landing_y(board, x, y, kind, state),
    ensures
        fits(board, x, y - k * DOT_SIZE, kind, state),
    decreases k,
{
    if y > -10000 && fits(board, x, y - DOT_SIZE, kind, state) {
        if k > 1 {
            lemma_landing_path_fits(board, x, y - DOT_SIZE, kind, state, k - 1);
            assert(y - DOT_SIZE - (k - 1) * DOT_SIZE == y - k * DOT_SIZE) by (nonlinear_arith);
        }
    } else {
        assert(k * DOT_SIZE >= 250) by (nonlinear_arith)
            requires
                k >= 1,
        ;
    }
}

} // verus!
