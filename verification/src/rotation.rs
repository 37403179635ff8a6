use vstd::prelude::*;

use crate::board::{board_check_block_position, fits, lemma_fits_on_board, lemma_on_board_bounds, Board, DOT_SIZE};
use crate::common_component::{ActiveBlock, DropType, GameData, GameState, Intent, MAX_LOCK_RESETS};
use crate::drop::sat_add;
use crate::tetromino::{block_of, Block, Kind, Rotation, State};

verus! {

/// The wall kick table: the offsets, in cells, to try in order when a piece
/// of type `kind` turns from state `from` to state `to`. The I piece has a
/// table of its own, the O piece never kicks, and the other five share one.
pub open spec fn kick_table(kind: Kind, from: State, to: State) -> Seq<(i8, i8)> {
    match kind {
        Kind::I => match (from, to) {
            (State::Zero, State::One) => seq![(0i8, 0i8), (-2i8, 0i8), (1i8, 0i8), (-2i8, -1i8), (1i8, 2i8)],
            (State::One, State::Zero) => seq![(0i8, 0i8), (2i8, 0i8), (-1i8, 0i8), (2i8, 1i8), (-1i8, -2i8)],
            (State::One, State::Two) => seq![(0i8, 0i8), (-1i8, 0i8), (2i8, 0i8), (-1i8, 2i8), (2i8, -1i8)],
            (State::Two, State::One) => seq![(0i8, 0i8), (1i8, 0i8), (-2i8, 0i8), (1i8, -2i8), (-2i8, 1i8)],
            (State::Two, State::Three) => seq![(0i8, 0i8), (2i8, 0i8), (-1i8, 0i8), (2i8, 1i8), (-1i8, -2i8)],
            (State::Three, State::Two) => seq![(0i8, 0i8), (-2i8, 0i8), (1i8, 0i8), (-2i8, -1i8), (1i8, 2i8)],
            (State::Three, State::Zero) => seq![(0i8, 0i8), (1i8, 0i8), (-2i8, 0i8), (1i8, -2i8), (-2i8, 1i8)],
            (State::Zero, State::Three) => seq![(0i8, 0i8), (-1i8, 0i8), (2i8, 0i8), (-1i8, 2i8), (2i8, -1i8)],
            _ => seq![(0i8, 0i8)],
        },
        Kind::O => seq![(0i8, 0i8)],
        _ => match (from, to) {
            (State::Zero, State::One) => seq![(0i8, 0i8), (-1i8, 0i8), (-1i8, 1i8), (0i8, -2i8), (-1i8, -2i8)],
            (State::One, State::Zero) => seq![(0i8, 0i8), (1i8, 0i8), (1i8, -1i8), (0i8, 2i8), (1i8, 2i8)],
            (State::One, State::Two) => seq![(0i8, 0i8), (1i8, 0i8), (1i8, -1i8), (0i8, 2i8), (1i8, 2i8)],
            (State::Two, State::One) => seq![(0i8, 0i8), (-1i8, 0i8), (-1i8, 1i8), (0i8, -2i8), (-1i8, -2i8)],
            (State::Two, State::Three) => seq![(0i8, 0i8), (1i8, 0i8), (1i8, 1i8), (0i8, -2i8), (1i8, -2i8)],
            (State::Three, State::Two) => seq![(0i8, 0i8), (-1i8, 0i8), (-1i8, -1i8), (0i8, 2i8), (-1i8, 2i8)],
            (State::Three, State::Zero) => seq![(0i8, 0i8), (-1i8, 0i8), (-1i8, -1i8), (0i8, 2i8), (-1i8, 2i8)],
            (State::Zero, State::Three) => seq![(0i8, 0i8), (1i8, 0i8), (1i8, 1i8), (0i8, -2i8), (1i8, -2i8)],
            _ => seq![(0i8, 0i8)],
        },
    }
}

/// The index of the first offset of `table`, from index `k` on, at which the
/// piece fits when moved by that many cells from `x`, `y`; the length of the
/// table if there is none.
pub open spec fn first_fit(board: Board, x: int, y: int, kind: Kind, state: State, table: Seq<(i8, i8)>, k: int) -> int
    decreases table.len() - k,
{
    if k < 0 || k >= table.len() {
        table.len() as int
    } else if fits(board, x + table[k].0 * DOT_SIZE, y + table[k].1 * DOT_SIZE, kind, state) {
        k
    } else {
        first_fit(board, x, y, kind, state, table, k + 1)
    }
}

/// The session after a move or rotation of the piece in play has succeeded:
/// while the lock delay is active the move is counted, and it restarts the
/// lock delay as long as the count is below the limit.
pub open spec fn lock_delay_nudged(g: GameData) -> GameData {
    if g.lock_delay_active {
        GameData {
            lock_move_count: sat_add(g.lock_move_count, 1),
            lock_delay_timer: if sat_add(g.lock_move_count, 1) < MAX_LOCK_RESETS {
                g.lock_delay_timer.rewound()
            } else {
                g.lock_delay_timer
            },
            ..g
        }
    } else {
        g
    }
}

/// Whether moves, rotations and holds are accepted: the session is in play,
/// not in a hard drop, and has a piece in play.
pub open spec fn accepts_moves(g: GameData) -> bool {
    g.state == GameState::Playing && g.drop_type != DropType::Hard && g.active is Some
}

/// The state that a rotation intent leads to from `from`.
pub open spec fn turned(from: State, intent: Intent) -> State {
    if intent == Intent::RotateCW {
        from.right()
    } else {
        from.left()
    }
}

/// The session after a rotation intent. The candidate is the piece turned by
/// one step; the offsets of its kick table are tried in order, and the first
/// at which the candidate fits moves the piece there and turns it. Where none
/// fits, and for any other intent, nothing changes.
pub open spec fn rotated(g: GameData, intent: Intent) -> GameData {
    if !accepts_moves(g) || (intent != Intent::RotateCW && intent != Intent::RotateCCW) {
        g
    } else {
        let piece = g.active.unwrap();
        let kind = piece.block.kind_of();
        let from = piece.block.state_of();
        let to = turned(from, intent);
        let table = kick_table(kind, from, to);
        let k = first_fit(g.board_matrix, piece.x as int, piece.y as int, kind, to, table, 0);
        if k >= table.len() {
            g
        } else {
            lock_delay_nudged(
                GameData {
                    active: Some(
                        ActiveBlock {
                            block: block_of(kind, to),
                            x: (piece.x + table[k].0 * DOT_SIZE) as i32,
                            y: (piece.y + table[k].1 * DOT_SIZE) as i32,
                        },
                    ),
                    ..g
                },
            )
        }
    }
}

/// The wall kick offsets to try, in order, for a turn of `block` from state
/// `from` to state `to`.
pub fn get_kick_offsets(block: &Block, from: State, to: State) -> (offsets: Vec<(i8, i8)>)
    ensures
        offsets@ == kick_table(block.kind_of(), from, to),
{
    let offsets: Vec<(i8, i8)> = match block {
        Block::I { .. } => match (from, to) {
            (State::Zero, State::One) => vec![(0, 0), (-2, 0), (1, 0), (-2, -1), (1, 2)],
            (State::One, State::Zero) => vec![(0, 0), (2, 0), (-1, 0), (2, 1), (-1, -2)],
            (State::One, State::Two) => vec![(0, 0), (-1, 0), (2, 0), (-1, 2), (2, -1)],
            (State::Two, State::One) => vec![(0, 0), (1, 0), (-2, 0), (1, -2), (-2, 1)],
            (State::Two, State::Three) => vec![(0, 0), (2, 0), (-1, 0), (2, 1), (-1, -2)],
            (State::Three, State::Two) => vec![(0, 0), (-2, 0), (1, 0), (-2, -1), (1, 2)],
            (State::Three, State::Zero) => vec![(0, 0), (1, 0), (-2, 0), (1, -2), (-2, 1)],
            (State::Zero, State::Three) => vec![(0, 0), (-1, 0), (2, 0), (-1, 2), (2, -1)],
            _ => vec![(0, 0)],
        },
        Block::O { .. } => vec![(0, 0)],
        _ => match (from, to) {
            (State::Zero, State::One) => vec![(0, 0), (-1, 0), (-1, 1), (0, -2), (-1, -2)],
            (State::One, State::Zero) => vec![(0, 0), (1, 0), (1, -1), (0, 2), (1, 2)],
            (State::One, State::Two) => vec![(0, 0), (1, 0), (1, -1), (0, 2), (1, 2)],
            (State::Two, State::One) => vec![(0, 0), (-1, 0), (-1, 1), (0, -2), (-1, -2)],
            (State::Two, State::Three) => vec![(0, 0), (1, 0), (1, 1), (0, -2), (1, -2)],
            (State::Three, State::Two) => vec![(0, 0), (-1, 0), (-1, -1), (0, 2), (-1, 2)],
            (State::Three, State::Zero) => vec![(0, 0), (-1, 0), (-1, -1), (0, 2), (-1, 2)],
            (State::Zero, State::Three) => vec![(0, 0), (1, 0), (1, 1), (0, -2), (1, -2)],
            _ => vec![(0, 0)],
        },
    };
    assert(offsets@ =~= kick_table(block.kind_of(), from, to));
    offsets
}

/// Counts a successful move or rotation against the lock delay.
pub fn nudge_lock_delay(game: &mut GameData)
    ensures
        *final(game) == lock_delay_nudged(*old(game)),
{
    if game.lock_delay_active {
        game.lock_move_count = game.lock_move_count.saturating_add(1);
        if game.lock_move_count < MAX_LOCK_RESETS {
            game.lock_delay_timer.reset();
        }
    }
}

/// Applies a rotation intent to the piece in play, with wall kicks. Returns
/// whether the piece turned.
pub fn block_rotation_system(game: &mut GameData, intent: Intent) -> (has_turned: bool)
    requires
        old(game).wf(),
    ensures
        *final(game) == rotated(*old(game), intent),
        has_turned == (final(game).active != old(game).active),
        final(game).wf(),
{
    if game.state != GameState::Playing || game.drop_type == DropType::Hard {
        return false;
    }
    let piece = match game.active {
        Some(piece) => piece,
        None => {
            return false;
        },
    };
    let mut block = piece.block;
    let (from, to) = if intent == Intent::RotateCW {
        Rotation::rotate_right(&mut block)
    } else if intent == Intent::RotateCCW {
        Rotation::rotate_left(&mut block)
    } else {
        return false;
    };
    proof {
        lemma_on_board_bounds(piece.x as int, piece.y as int, piece.block.kind_of(), piece.block.state_of());
        lemma_kick_table_shape(piece.block.kind_of(), from, to);
    }
    let kick_offsets = get_kick_offsets(&block, from, to);
    let ghost kind = piece.block.kind_of();
    let ghost table = kick_table(kind, from, to);
    let mut k: usize = 0;
    while k < kick_offsets.len()
        invariant
            0 <= k <= kick_offsets@.len(),
            kick_offsets@ == table,
            table == kick_table(kind, from, to),
            kind == piece.block.kind_of(),
            from == piece.block.state_of(),
            to == turned(from, intent),
            intent == Intent::RotateCW || intent == Intent::RotateCCW,
            accepts_moves(*old(game)),
            old(game).wf(),
            block == block_of(kind, to),
            -10000 < piece.x < 10000,
            -10000 < piece.y < 10000,
            forall|m: int| 0 <= m < table.len() ==> -2 <= (#[trigger] table[m]).0 <= 2 && -2 <= table[m].1 <= 2,
            first_fit(game.board_matrix, piece.x as int, piece.y as int, kind, to, table, 0) == first_fit(
                game.board_matrix,
                piece.x as int,
                piece.y as int,
                kind,
                to,
                table,
                k as int,
            ),
            *game == *old(game),
            game.active == Some(piece),
        decreases kick_offsets@.len() - k,
    {
        let (kick_x, kick_y) = kick_offsets[k];
        let test_x: i32 = piece.x + kick_x as i32 * DOT_SIZE;
        let test_y: i32 = piece.y + kick_y as i32 * DOT_SIZE;
        if board_check_block_position(&game.board_matrix, test_x, test_y, &block) {
            proof {
                lemma_fits_on_board(game.board_matrix, test_x as int, test_y as int, kind, to);
                assert(block.kind_of() == kind && block.state_of() == to);
            }
            game.active = Some(ActiveBlock { block, x: test_x, y: test_y });
            nudge_lock_delay(game);
            proof {
                lemma_block_turn_differs(piece.block, to);
            }
            return true;
        }
        k += 1;
    }
    false
}

/// Every kick table starts with the identity offset, holds one or five
/// offsets, and moves a piece by at most two cells either way.
pub proof fn lemma_kick_table_shape(kind: Kind, from: State, to: State)
    ensures
        kick_table(kind, from, to).len() == 1 || kick_table(kind, from, to).len() == 5,
        kick_table(kind, from, to)[0] == (0i8, 0i8),
        kind == Kind::O ==> kick_table(kind, from, to) == seq![(0i8, 0i8)],
        forall|m: int|
            0 <= m < kick_table(kind, from, to).len() ==> -2 <= (#[trigger] kick_table(kind, from, to)[m]).0 <= 2
                && -2 <= kick_table(kind, from, to)[m].1 <= 2,
{
}

/// A turn by one step, either way, between two states gives a table of five
/// offsets for every piece but the O piece.
pub proof fn lemma_kick_table_five(kind: Kind, from: State)
    requires
        kind != Kind::O,
    ensures
        kick_table(kind, from, from.right()).len() == 5,
        kick_table(kind, from, from.left()).len() == 5,
{
}

proof fn lemma_block_turn_differs(block: Block, to: State)
    requires
        to == block.state_of().right() || to == block.state_of().left(),
    ensures
        block_of(block.kind_of(), to) != block,
{
}

/// The offset that a rotation applies is the first in table order at which
/// the candidate fits: the candidate fits there, and at no earlier offset.
pub proof fn lemma_first_fit_is_first(
    board: Board,
    x: int,
    y: int,
    kind: Kind,
    state: State,
    table: Seq<(i8, i8)>,
    k: int,
)
    requires
        0 <= k <= table.len(),
    ensures
        k <= first_fit(board, x, y, kind, state, table, k) <= table.len(),
        first_fit(board, x, y, kind, state, table, k) < table.len() ==> fits(
            board,
            x + table[first_fit(board, x, y, kind, state, table, k)].0 * DOT_SIZE,
            y + table[first_fit(board, x, y, kind, state, table, k)].1 * DOT_SIZE,
            kind,
            state,
        ),
        forall|m: int|
            k <= m < first_fit(board, x, y, kind, state, table, k) ==> !fits(
                board,
                x + (#[trigger] table[m]).0 * DOT_SIZE,
                y + table[m].1 * DOT_SIZE,
                kind,
                state,
            ),
    decreases table.len() - k,
{
    if k < table.len() && !fits(board, x + table[k].0 * DOT_SIZE, y + table[k].1 * DOT_SIZE, kind, state) {
        lemma_first_fit_is_first(board, x, y, kind, state, table, k + 1);
    }
}

/// A rotation that finds no offset leaves the session as it was, and one that
/// finds an offset leaves a piece that fits the board.
pub proof fn lemma_rotation_fits(g: GameData, intent: Intent)
    requires
        g.active is Some,
        rotated(g, intent).active != g.active,
    ensures
        rotated(g, intent).active is Some,
        rotated(g, intent).active.unwrap().fits_on(g.board_matrix),
        rotated(g, intent).board_matrix == g.board_matrix,
{
    let piece = g.active.unwrap();
    let kind = piece.block.kind_of();
    let to = turned(piece.block.state_of(), intent);
    let table = kick_table(kind, piece.block.state_of(), to);
    lemma_first_fit_is_first(g.board_matrix, piece.x as int, piece.y as int, kind, to, table, 0);
    let k = first_fit(g.board_matrix, piece.x as int, piece.y as int, kind, to, table, 0);
    lemma_fits_on_board(
        g.board_matrix,
        piece.x + table[k].0 * DOT_SIZE,
        piece.y + table[k].1 * DOT_SIZE,
        kind,
        to,
    );
    lemma_on_board_bounds(piece.x + table[k].0 * DOT_SIZE, piece.y + table[k].1 * DOT_SIZE, kind, to);
}

} // verus!
