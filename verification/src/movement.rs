use vstd::prelude::*;

use crate::board::{board_check_block_position, fits, lemma_fits_on_board, lemma_on_board_bounds, DOT_SIZE};
use crate::common_component::{ActiveBlock, DropType, GameData, GameState, Intent};
use crate::rotation::{accepts_moves, lock_delay_nudged, nudge_lock_delay};

verus! {

/// The world distance that a move intent asks for: one cell to the left or
/// to the right.
pub open spec fn move_distance(intent: Intent) -> int {
    if intent == Intent::MoveLeft {
        -DOT_SIZE
    } else {
        DOT_SIZE as int
    }
}

/// The session after a move intent: the piece in play moves one cell
/// sideways if it fits there, and the move counts against the lock delay.
/// A blocked move, and any other intent, changes nothing.
pub open spec fn moved_sideways(g: GameData, intent: Intent) -> GameData {
    if !accepts_moves(g) || (intent != Intent::MoveLeft && intent != Intent::MoveRight) {
        g
    } else {
        let piece = g.active.unwrap();
        if fits(
            g.board_matrix,
            piece.x + move_distance(intent),
            piece.y as int,
            piece.block.kind_of(),
            piece.block.state_of(),
        ) {
            lock_delay_nudged(GameData { active: Some(piece.moved(move_distance(intent), 0)), ..g })
        } else {
            g
        }
    }
}

/// Applies a move intent to the piece in play. Returns whether the piece
/// moved.
pub fn block_movement_system(game: &mut GameData, intent: Intent) -> (has_moved: bool)
    requires
        old(game).wf(),
    ensures
        *final(game) == moved_sideways(*old(game), intent),
        has_moved == (final(game).active != old(game).active),
        final(game).wf(),
{
    if game.state != GameState::Playing || game.drop_type == DropType::Hard {
        return false;
    }
    let piece = match game.active {
        Some(piece) => piece,
        None => {
            return false;
        },
    };
    proof {
        lemma_on_board_bounds(piece.x as int, piece.y as int, piece.block.kind_of(), piece.block.state_of());
    }
    let transform_x: i32 = if intent == Intent::MoveLeft {
        -DOT_SIZE
    } else if intent == Intent::MoveRight {
        DOT_SIZE
    } else {
        return false;
    };
    let in_board = board_check_block_position(&game.board_matrix, piece.x + transform_x, piece.y, &piece.block);
    if in_board {
        proof {
            lemma_fits_on_board(
                game.board_matrix,
                piece.x + transform_x,
                piece.y as int,
                piece.block.kind_of(),
                piece.block.state_of(),
            );
        }
        game.active = Some(ActiveBlock { x: piece.x + transform_x, ..piece });
        nudge_lock_delay(game);
        true
    } else {
        false
    }
}

/// A move that is accepted leaves a piece that fits the board, one cell to
/// the side of where it was, in the same rotation state.
pub proof fn lemma_move_fits(g: GameData, intent: Intent)
    requires
        g.wf(),
        g.active is Some,
        moved_sideways(g, intent).active != g.active,
    ensures
        moved_sideways(g, intent).active is Some,
        moved_sideways(g, intent).active.unwrap().fits_on(g.board_matrix),
        moved_sideways(g, intent).active.unwrap().block == g.active.unwrap().block,
        moved_sideways(g, intent).active.unwrap().y == g.active.unwrap().y,
        moved_sideways(g, intent).active.unwrap().x == g.active.unwrap().x + move_distance(intent),
        moved_sideways(g, intent).board_matrix == g.board_matrix,
{
    let piece = g.active.unwrap();
    lemma_on_board_bounds(piece.x as int, piece.y as int, piece.block.kind_of(), piece.block.state_of());
}

} // verus!
