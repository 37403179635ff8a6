use vstd::prelude::*;

use crate::board::{
    board_check_block_position, fits, lemma_fits_on_board, lemma_on_board_bounds, occupied, place_dot_on_board,
    world_col, world_row, Board, BOARD_COLS, BOARD_ROWS, DOT_SIZE,
};
use crate::common_component::{ActiveBlock, ActiveDot, DropType, GameData, GameState, Intent};

verus! {

/// `a + b`, held at the largest `u32` where the sum is above it.
pub open spec fn sat_add(a: u32, b: int) -> u32 {
    if a + b > u32::MAX {
        u32::MAX
    } else {
        (a + b) as u32
    }
}

/// The points of a hard drop that started at world height `start_y` and
/// locked at `y`: two for each whole cell fallen.
pub open spec fn hard_drop_points(start_y: int, y: int) -> int {
    if start_y >= y {
        2 * ((start_y - y) / (DOT_SIZE as int))
    } else {
        0
    }
}

/// The score after the piece in play has locked: the points of a hard drop
/// in flight and the soft drop cells not yet awarded are added.
pub open spec fn lock_score(g: GameData) -> u32 {
    let after_hard = match g.hard_drop_start_y {
        Some(start_y) => sat_add(g.score, hard_drop_points(start_y as int, g.active.unwrap().y as int)),
        None => g.score,
    };
    sat_add(after_hard, g.soft_drop_cells as int)
}

/// Whether `post` is `pre` after its piece in play has locked: the piece's
/// four cells are occupied, no piece is in play, the drop points are awarded,
/// and hold and lock delay are cleared.
pub open spec fn locked(pre: GameData, post: GameData) -> bool {
    &&& pre.active is Some
    &&& forall|r: int, c: int|
        0 <= r < BOARD_ROWS && 0 <= c < BOARD_COLS ==> #[trigger] occupied(post.board_matrix, r, c) == (occupied(
            pre.board_matrix,
            r,
            c,
        ) || pre.active.unwrap().covers_cell(r, c))
    &&& post == (GameData {
        board_matrix: post.board_matrix,
        score: lock_score(pre),
        hard_drop_start_y: None,
        soft_drop_cells: 0,
        active: None,
        hold_used: false,
        lock_delay_active: false,
        lock_move_count: 0,
        ..pre
    })
}

/// The session after a drop intent. A hard drop, once entered, is left only
/// by locking; any other intent, and any intent outside play, changes
/// nothing.
pub open spec fn drop_type_changed(g: GameData, intent: Intent) -> GameData {
    if g.state != GameState::Playing || g.drop_type == DropType::Hard {
        g
    } else if intent == Intent::HardDrop {
        GameData {
            drop_type: DropType::Hard,
            hard_drop_timer: g.hard_drop_timer.rewound(),
            hard_drop_start_y: match g.active {
                Some(piece) => Some(piece.y),
                None => g.hard_drop_start_y,
            },
            ..g
        }
    } else if intent == Intent::SoftDropStart && g.drop_type == DropType::Normal {
        GameData { drop_type: DropType::Soft, soft_drop_timer: g.soft_drop_timer.rewound(), ..g }
    } else if intent == Intent::SoftDropEnd && g.drop_type == DropType::Soft {
        GameData {
            drop_type: DropType::Normal,
            score: sat_add(g.score, g.soft_drop_cells as int),
            soft_drop_cells: 0,
            ..g
        }
    } else {
        g
    }
}

/// Whether the piece in play fits one cell further down.
pub open spec fn can_fall(g: GameData) -> bool {
    &&& g.active is Some
    &&& fits(
        g.board_matrix,
        g.active.unwrap().x as int,
        g.active.unwrap().y - DOT_SIZE,
        g.active.unwrap().block.kind_of(),
        g.active.unwrap().block.state_of(),
    )
}

/// Whether the lock delay governs this step: it is active, the piece is not
/// in a hard drop, and the piece still cannot fall.
pub open spec fn lock_delay_holds(g: GameData) -> bool {
    g.lock_delay_active && g.drop_type != DropType::Hard && !can_fall(g)
}

/// The session with the timer of its drop mode advanced by `delta`.
pub open spec fn mode_timer_ticked(g: GameData, delta: u64) -> GameData {
    match g.drop_type {
        DropType::Hard => GameData { hard_drop_timer: g.hard_drop_timer.ticked(delta as int), ..g },
        DropType::Soft => GameData { soft_drop_timer: g.soft_drop_timer.ticked(delta as int), ..g },
        DropType::Normal => GameData { drop_timer: g.drop_timer.ticked(delta as int), ..g },
    }
}

/// Whether the timer of the session's drop mode reports that its interval
/// elapsed.
pub open spec fn mode_timer_finished(g: GameData) -> bool {
    match g.drop_type {
        DropType::Hard => g.hard_drop_timer.finished,
        DropType::Soft => g.soft_drop_timer.finished,
        DropType::Normal => g.drop_timer.finished,
    }
}

/// The session after its piece in play has moved down one cell; a soft drop
/// counts the cell.
pub open spec fn fallen(g: GameData) -> GameData {
    GameData {
        active: Some(g.active.unwrap().moved(0, -DOT_SIZE)),
        soft_drop_cells: if g.drop_type == DropType::Soft {
            sat_add(g.soft_drop_cells, 1)
        } else {
            g.soft_drop_cells
        },
        lock_delay_active: false,
        ..g
    }
}

/// The session with the lock delay started afresh.
pub open spec fn lock_delay_started(g: GameData) -> GameData {
    GameData {
        lock_delay_active: true,
        lock_delay_timer: g.lock_delay_timer.rewound(),
        lock_move_count: 0,
        ..g
    }
}

/// The session with a lock delay that no longer applies cancelled.
pub open spec fn lock_delay_cancelled(g: GameData) -> GameData {
    if g.lock_delay_active && g.drop_type != DropType::Hard {
        GameData { lock_delay_active: false, lock_move_count: 0, ..g }
    } else {
        g
    }
}

/// Whether `post` is `pre` after one step of `delta` microseconds of the drop
/// and lock state machine.
///
/// Outside play, or with no piece in play, nothing changes. While the lock
/// delay holds, only its timer advances, and the piece locks when it runs
/// out. Otherwise a lock delay that no longer applies is cancelled and the
/// timer of the drop mode advances; when its interval has elapsed the piece
/// moves down one cell if it fits there, locks at once in a hard drop, and
/// starts the lock delay in the other modes.
pub open spec fn drop_stepped(pre: GameData, delta: u64, post: GameData) -> bool {
    if pre.state != GameState::Playing || pre.active is None {
        post == pre
    } else if lock_delay_holds(pre) {
        let waited = GameData { lock_delay_timer: pre.lock_delay_timer.ticked(delta as int), ..pre };
        if waited.lock_delay_timer.finished {
            locked(waited, post)
        } else {
            post == waited
        }
    } else {
        let timed = mode_timer_ticked(lock_delay_cancelled(pre), delta);
        if !mode_timer_finished(timed) {
            post == timed
        } else if can_fall(timed) {
            post == fallen(timed)
        } else if timed.drop_type == DropType::Hard {
            locked(timed, post)
        } else {
            post == lock_delay_started(timed)
        }
    }
}

/// Marks the four cells of `piece` as occupied.
fn place_piece(board: &mut Board, piece: &ActiveBlock)
    requires
        piece.is_on_board(),
    ensures
        forall|r: int, c: int|
            0 <= r < BOARD_ROWS && 0 <= c < BOARD_COLS ==> #[trigger] occupied(*final(board), r, c) == (occupied(
                *old(board),
                r,
                c,
            ) || piece.covers_cell(r, c)),
{
    let dots: [ActiveDot; 4] = piece.dots();
    let ghost before = *board;
    let mut i: usize = 0;
    while i < 4
        invariant
            0 <= i <= 4,
            piece.is_on_board(),
            forall|k: int|
                0 <= k < 4 ==> {
                    &&& (#[trigger] dots[k]).board_x == world_col(piece.x as int)
                        + piece.block.cells()[k].x
                    &&& dots[k].board_y == world_row(piece.y as int) + piece.block.cells()[k].y
                },
            forall|r: int, c: int|
                0 <= r < BOARD_ROWS && 0 <= c < BOARD_COLS ==> #[trigger] occupied(*board, r, c) == (occupied(
                    before,
                    r,
                    c,
                ) || exists|k: int| 0 <= k < i && (#[trigger] dots[k]).board_x == c && dots[k].board_y == r),
        decreases 4 - i,
    {
        let dot = dots[i];
        assert(0 <= world_col(piece.x as int) + piece.block.cells()[i as int].x < BOARD_COLS);
        let ghost mid = *board;
        place_dot_on_board(dot.board_x as i8, dot.board_y as i8, board);
        assert forall|r: int, c: int| 0 <= r < BOARD_ROWS && 0 <= c < BOARD_COLS implies #[trigger] occupied(
            *board,
            r,
            c,
        ) == (occupied(before, r, c) || exists|k: int|
            0 <= k < i + 1 && (#[trigger] dots[k]).board_x == c && dots[k].board_y == r) by {
            if r == dot.board_y && c == dot.board_x {
                assert(dots[i as int].board_x == c && dots[i as int].board_y == r);
            }
            if exists|k: int| 0 <= k < i + 1 && (#[trigger] dots[k]).board_x == c && dots[k].board_y == r {
                let k = choose|k: int| 0 <= k < i + 1 && (#[trigger] dots[k]).board_x == c && dots[k].board_y == r;
                if k < i {
                    assert(occupied(mid, r, c));
                }
            }
        }
        i += 1;
    }
    proof {
        assert forall|r: int, c: int| 0 <= r < BOARD_ROWS && 0 <= c < BOARD_COLS implies #[trigger] occupied(
            *board,
            r,
            c,
        ) == (occupied(before, r, c) || piece.covers_cell(r, c)) by {
            if piece.covers_cell(r, c) {
                let k = choose|k: int|
                    0 <= k < 4 && world_col(piece.x as int) + (#[trigger] piece.block.cells()[k]).x
                        == c && world_row(piece.y as int) + piece.block.cells()[k].y == r;
                assert(dots[k].board_x == c && dots[k].board_y == r);
            }
            if exists|k: int| 0 <= k < 4 && (#[trigger] dots[k]).board_x == c && dots[k].board_y == r {
                let k = choose|k: int| 0 <= k < 4 && (#[trigger] dots[k]).board_x == c && dots[k].board_y == r;
                assert(world_col(piece.x as int) + piece.block.cells()[k].x == c);
            }
        }
    }
}

/// Locks the piece in play: its cells become occupied, the points of the
/// drop are awarded, and the session is left without a piece in play.
pub fn place_block_on_board(game: &mut GameData)
    requires
        old(game).wf(),
        old(game).active is Some,
    ensures
        locked(*old(game), *final(game)),
        final(game).wf(),
{
    let piece = game.active.unwrap();
    if let Some(start_y) = game.hard_drop_start_y {
        if start_y >= piece.y {
            let cells: i64 = (start_y as i64 - piece.y as i64) / (DOT_SIZE as i64);
            game.score = game.score.saturating_add((2 * cells) as u32);
        }
        game.hard_drop_start_y = None;
    }
    game.score = game.score.saturating_add(game.soft_drop_cells);
    game.soft_drop_cells = 0;
    place_piece(&mut game.board_matrix, &piece);
    game.active = None;
    game.hold_used = false;
    game.lock_delay_active = false;
    game.lock_move_count = 0;
}

/// Applies a drop intent: enters a hard drop, starts a soft drop, or ends a
/// soft drop and awards its cells.
pub fn block_drop_type_system(game: &mut GameData, intent: Intent)
    ensures
        *final(game) == drop_type_changed(*old(game), intent),
        old(game).wf() ==> final(game).wf(),
{
    if game.state != GameState::Playing || game.drop_type == DropType::Hard {
        return;
    }
    if intent == Intent::HardDrop {
        game.drop_type = DropType::Hard;
        game.hard_drop_timer.reset();
        if let Some(piece) = game.active {
            game.hard_drop_start_y = Some(piece.y);
        }
    } else if intent == Intent::SoftDropStart && game.drop_type == DropType::Normal {
        game.drop_type = DropType::Soft;
        game.soft_drop_timer.reset();
    } else if intent == Intent::SoftDropEnd && game.drop_type == DropType::Soft {
        game.drop_type = DropType::Normal;
        game.score = game.score.saturating_add(game.soft_drop_cells);
        game.soft_drop_cells = 0;
    }
}

/// One step of `delta` microseconds of the drop and lock state machine.
/// Returns whether the piece in play locked in this step.
pub fn block_drop_system(game: &mut GameData, delta: u64) -> (has_locked: bool)
    requires
        old(game).wf(),
    ensures
        drop_stepped(*old(game), delta, *final(game)),
        has_locked == (old(game).active is Some && final(game).active is None),
        final(game).wf(),
{
    if game.state != GameState::Playing {
        return false;
    }
    let piece = match game.active {
        Some(piece) => piece,
        None => {
            return false;
        },
    };
    proof {
        lemma_on_board_bounds(piece.x as int, piece.y as int, piece.block.kind_of(), piece.block.state_of());
    }
    let below: i32 = piece.y - DOT_SIZE;
    let can_drop = board_check_block_position(&game.board_matrix, piece.x, below, &piece.block);
    assert(can_drop == can_fall(*game));
    if game.lock_delay_active && game.drop_type != DropType::Hard {
        if can_drop {
            game.lock_delay_active = false;
            game.lock_move_count = 0;
        } else {
            let finished = game.lock_delay_timer.tick(delta);
            if finished {
                place_block_on_board(game);
                return true;
            }
            return false;
        }
    }
    let finished = match game.drop_type {
        DropType::Hard => game.hard_drop_timer.tick(delta),
        DropType::Soft => game.soft_drop_timer.tick(delta),
        DropType::Normal => game.drop_timer.tick(delta),
    };
    if !finished {
        return false;
    }
    assert(can_drop == can_fall(*game));
    if can_drop {
        proof {
            lemma_fits_on_board(
                game.board_matrix,
                piece.x as int,
                below as int,
                piece.block.kind_of(),
                piece.block.state_of(),
            );
        }
        game.active = Some(ActiveBlock { y: below, ..piece });
        if game.drop_type == DropType::Soft {
            game.soft_drop_cells = game.soft_drop_cells.saturating_add(1);
        }
        game.lock_delay_active = false;
        false
    } else if game.drop_type == DropType::Hard {
        place_block_on_board(game);
        true
    } else {
        game.lock_delay_active = true;
        game.lock_delay_timer.reset();
        game.lock_move_count = 0;
        false
    }
}

/// A step never lowers the score, and it changes the board only by locking.
pub proof fn lemma_drop_step_score(pre: GameData, delta: u64, post: GameData)
    requires
        drop_stepped(pre, delta, post),
    ensures
        post.score >= pre.score,
        post.active is Some ==> post.board_matrix == pre.board_matrix,
        post.lines_cleared == pre.lines_cleared,
        post.state == pre.state,
{
}

/// Outside play a step changes nothing: a paused session keeps its timers
/// where they are.
pub proof fn lemma_drop_step_gated(pre: GameData, delta: u64, post: GameData)
    requires
        drop_stepped(pre, delta, post),
        pre.state != GameState::Playing,
    ensures
        post == pre,
{
}

/// Locking clears the hold flag, whatever it was, and nothing else in a step
/// of the drop and lock state machine does: a step that does not lock keeps
/// the flag.
pub proof fn lemma_hold_flag_cleared_by_lock(pre: GameData, delta: u64, post: GameData)
    requires
        drop_stepped(pre, delta, post),
    ensures
        pre.active is Some && post.active is None ==> !post.hold_used,
        !(pre.active is Some && post.active is None) ==> post.hold_used == pre.hold_used,
{
}

} // verus!
