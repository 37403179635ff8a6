use vstd::prelude::*;

use crate::common_component::{ActiveBlock, DropType, GameData, GameState};
use crate::rotation::accepts_moves;
use crate::spawn_block_system::{at_spawn, lemma_spawn_on_board, spawn_position};
use crate::tetromino::{block_of, State};

verus! {

/// Whether a hold intent is accepted: moves are accepted and the hold has
/// not been used since the last lock.
pub open spec fn accepts_hold(g: GameData) -> bool {
    accepts_moves(g) && !g.hold_used
}

/// The session after a hold intent. Where it is accepted, the piece in play
/// becomes the held piece, in rotation state Zero; the piece held before, if
/// there was one, comes into play at its spawn position, in rotation state
/// Zero too, and otherwise no piece is in play; the hold counts as used, the
/// drop mode is Normal, and the drop points in flight are dropped. Where it
/// is not accepted, nothing changes.
pub open spec fn held(g: GameData) -> GameData {
    if !accepts_hold(g) {
        g
    } else {
        GameData {
            held_block: Some(block_of(g.active.unwrap().block.kind_of(), State::Zero)),
            hold_used: true,
            soft_drop_cells: 0,
            hard_drop_start_y: None,
            active: match g.held_block {
                Some(previous) => Some(at_spawn(block_of(previous.kind_of(), State::Zero))),
                None => None,
            },
            drop_type: DropType::Normal,
            ..g
        }
    }
}

/// Applies a hold intent. Returns whether the hold was accepted.
pub fn hold_block_system(game: &mut GameData) -> (has_held: bool)
    ensures
        *final(game) == held(*old(game)),
        has_held == accepts_hold(*old(game)),
        old(game).wf() ==> final(game).wf(),
{
    if game.state != GameState::Playing || game.drop_type == DropType::Hard {
        return false;
    }
    if game.hold_used {
        return false;
    }
    let piece = match game.active {
        Some(piece) => piece,
        None => {
            return false;
        },
    };
    let mut current_block = piece.block;
    current_block.reset_rotation();
    let previously_held = game.held_block;
    game.held_block = Some(current_block);
    game.hold_used = true;
    game.soft_drop_cells = 0;
    game.hard_drop_start_y = None;
    game.active = match previously_held {
        Some(previous) => {
            let mut swapped = previous;
            swapped.reset_rotation();
            let (x, y) = spawn_position(&swapped);
            proof {
                lemma_spawn_on_board(previous.kind_of());
            }
            Some(ActiveBlock { block: swapped, x, y })
        },
        None => None,
    };
    game.drop_type = DropType::Normal;
    true
}

/// A first hold, with nothing held before, leaves no piece in play and holds
/// the piece that was in play; a second accepted hold brings the held piece
/// back into play and holds the other one.
pub proof fn lemma_hold_swaps(g: GameData)
    requires
        accepts_hold(g),
    ensures
        held(g).held_block == Some(block_of(g.active.unwrap().block.kind_of(), State::Zero)),
        g.held_block is None ==> held(g).active is None,
        g.held_block is Some ==> held(g).active is Some && held(g).active.unwrap().block.kind_of()
            == g.held_block.unwrap().kind_of(),
        held(g).hold_used,
        held(held(g)) == held(g),
{
}

} // verus!
