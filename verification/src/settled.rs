use vstd::prelude::*;

use crate::board::{
    cell_free, covers, fits, grid, occupied, on_board, world_col, world_row, Board, BOARD_COLS, BOARD_ROWS, DOT_SIZE,
};
use crate::board::{board_empty, lemma_fits_on_board};
use crate::common_component::{GameData, Intent};
use crate::session::{drop_intent_applied, step_stages};
use crate::tetromino::Block;
use crate::compaction::{has_no_gap, lemma_compaction_settles, lemma_no_gap_means_no_gap_rows};
use crate::drop::{can_fall, drop_stepped, locked};
use crate::line_clear::{empty_at, is_grid, rows_cleared, occupied_above};
use crate::tetromino::{lemma_shape_four_dots, shape, Kind, State};

verus! {

/// Whether a piece of the given type and state has a dot with row offset
/// `t`.
pub open spec fn has_dot_in_row(kind: Kind, state: State, t: int) -> bool {
    exists|k: int| 0 <= k < 4 && (#[trigger] shape(kind, state)[k]).y == t
}

/// The rows of a piece are contiguous: between the rows of any two of its
/// dots the piece has a dot in every row.
pub proof fn lemma_piece_rows_contiguous(kind: Kind, state: State, i: int, j: int, t: int)
    requires
        0 <= i < 4,
        0 <= j < 4,
        shape(kind, state)[i].y <= t <= shape(kind, state)[j].y,
    ensures
        has_dot_in_row(kind, state, t),
{
    match (kind, state) {
        (Kind::I, State::Zero) => {
            assert(shape(kind, state)[0].y == 1);
        },
        (Kind::I, State::One) => {
            assert(shape(kind, state)[0].y == 0);
            assert(shape(kind, state)[1].y == 1);
            assert(shape(kind, state)[2].y == 2);
            assert(shape(kind, state)[3].y == 3);
        },
        (Kind::I, State::Two) => {
            assert(shape(kind, state)[0].y == 2);
        },
        (Kind::I, State::Three) => {
            assert(shape(kind, state)[0].y == 0);
            assert(shape(kind, state)[1].y == 1);
            assert(shape(kind, state)[2].y == 2);
            assert(shape(kind, state)[3].y == 3);
        },
        (Kind::O, State::Zero) => {
            assert(shape(kind, state)[0].y == 0);
            assert(shape(kind, state)[2].y == 1);
        },
        (Kind::O, State::One) => {
            assert(shape(kind, state)[0].y == 0);
            assert(shape(kind, state)[2].y == 1);
        },
        (Kind::O, State::Two) => {
            assert(shape(kind, state)[0].y == 0);
            assert(shape(kind, state)[2].y == 1);
        },
        (Kind::O, State::Three) => {
            assert(shape(kind, state)[0].y == 0);
            assert(shape(kind, state)[2].y == 1);
        },
        (Kind::T, State::Zero) => {
            assert(shape(kind, state)[0].y == 0);
            assert(shape(kind, state)[1].y == 1);
        },
        (Kind::T, State::One) => {
            assert(shape(kind, state)[0].y == 0);
            assert(shape(kind, state)[1].y == 1);
            assert(shape(kind, state)[3].y == 2);
        },
        (Kind::T, State::Two) => {
            assert(shape(kind, state)[0].y == 1);
            assert(shape(kind, state)[3].y == 2);
        },
        (Kind::T, State::Three) => {
            assert(shape(kind, state)[0].y == 0);
            assert(shape(kind, state)[1].y == 1);
            assert(shape(kind, state)[3].y == 2);
        },
        (Kind::S, State::Zero) => {
            assert(shape(kind, state)[0].y == 0);
            assert(shape(kind, state)[2].y == 1);
        },
        (Kind::S, State::One) => {
            assert(shape(kind, state)[0].y == 0);
            assert(shape(kind, state)[1].y == 1);
            assert(shape(kind, state)[3].y == 2);
        },
        (Kind::S, State::Two) => {
            assert(shape(kind, state)[0].y == 1);
            assert(shape(kind, state)[2].y == 2);
        },
        (Kind::S, State::Three) => {
            assert(shape(kind, state)[0].y == 0);
            assert(shape(kind, state)[1].y == 1);
            assert(shape(kind, state)[3].y == 2);
        },
        (Kind::Z, State::Zero) => {
            assert(shape(kind, state)[0].y == 0);
            assert(shape(kind, state)[2].y == 1);
        },
        (Kind::Z, State::One) => {
            assert(shape(kind, state)[0].y == 0);
            assert(shape(kind, state)[1].y == 1);
            assert(shape(kind, state)[3].y == 2);
        },
        (Kind::Z, State::Two) => {
            assert(shape(kind, state)[0].y == 1);
            assert(shape(kind, state)[2].y == 2);
        },
        (Kind::Z, State::Three) => {
            assert(shape(kind, state)[0].y == 0);
            assert(shape(kind, state)[1].y == 1);
            assert(shape(kind, state)[3].y == 2);
        },
        (Kind::J, State::Zero) => {
            assert(shape(kind, state)[0].y == 0);
            assert(shape(kind, state)[1].y == 1);
        },
        (Kind::J, State::One) => {
            assert(shape(kind, state)[0].y == 0);
            assert(shape(kind, state)[2].y == 1);
            assert(shape(kind, state)[3].y == 2);
        },
        (Kind::J, State::Two) => {
            assert(shape(kind, state)[0].y == 1);
            assert(shape(kind, state)[3].y == 2);
        },
        (Kind::J, State::Three) => {
            assert(shape(kind, state)[0].y == 0);
            assert(shape(kind, state)[1].y == 1);
            assert(shape(kind, state)[2].y == 2);
        },
        (Kind::L, State::Zero) => {
            assert(shape(kind, state)[0].y == 0);
            assert(shape(kind, state)[1].y == 1);
        },
        (Kind::L, State::One) => {
            assert(shape(kind, state)[0].y == 0);
            assert(shape(kind, state)[1].y == 1);
            assert(shape(kind, state)[2].y == 2);
        },
        (Kind::L, State::Two) => {
            assert(shape(kind, state)[0].y == 1);
            assert(shape(kind, state)[3].y == 2);
        },
        (Kind::L, State::Three) => {
            assert(shape(kind, state)[0].y == 0);
            assert(shape(kind, state)[2].y == 1);
            assert(shape(kind, state)[3].y == 2);
        },
    }
}

/// A step down moves a piece by one row or, above the board where positions
/// are truncated toward zero, by none.
pub proof fn lemma_step_down_row(y: int)
    ensures
        world_row(y - DOT_SIZE) == world_row(y) || world_row(y - DOT_SIZE) == world_row(y) + 1,
{
}

proof fn lemma_row_emptiness(board: Board, r: int)
    requires
        0 <= r < BOARD_ROWS,
    ensures
        empty_at(grid(board), r) == (forall|c: int| 0 <= c < BOARD_COLS ==> !occupied(board, r, c)),
{
    let g = grid(board);
    if empty_at(g, r) {
        assert forall|c: int| 0 <= c < BOARD_COLS implies !occupied(board, r, c) by {
            assert(!g[r][c]);
        }
    }
    if forall|c: int| 0 <= c < BOARD_COLS ==> !occupied(board, r, c) {
        assert forall|c: int| 0 <= c < BOARD_COLS implies !#[trigger] g[r][c] by {
            assert(!occupied(board, r, c));
        }
    }
}

/// Locking a piece that cannot fall leaves no gap: on a board without a gap,
/// a piece that rests on the floor or on an occupied cell fills rows that
/// reach down to the rows already in use.
pub proof fn lemma_lock_keeps_no_gap(pre: GameData, post: GameData)
    requires
        locked(pre, post),
        pre.active.unwrap().is_on_board(),
        !can_fall(pre),
        has_no_gap(grid(pre.board_matrix)),
    ensures
        has_no_gap(grid(post.board_matrix)),
{
    let piece = pre.active.unwrap();
    let kind = piece.block.kind_of();
    let state = piece.block.state_of();
    let x = piece.x as int;
    let y = piece.y as int;
    let gp = grid(pre.board_matrix);
    let gq = grid(post.board_matrix);
    let s = shape(kind, state);
    lemma_shape_four_dots(kind, state);
    lemma_step_down_row(y);
    let i = choose|i: int|
        0 <= i < 4 && !cell_free(
            pre.board_matrix,
            world_col(x) + (#[trigger] shape(kind, state)[i]).x,
            world_row(y - DOT_SIZE) + shape(kind, state)[i].y,
        );
    let b = world_row(y - DOT_SIZE) + s[i].y;
    let bc = world_col(x) + s[i].x;
    assert(0 <= bc < BOARD_COLS && 0 <= world_row(y) + s[i].y < BOARD_ROWS);
    assert forall|r: int| 0 <= r < BOARD_ROWS implies !(#[trigger] empty_at(gq, r) && occupied_above(gq, r)) by {
        if empty_at(gq, r) && occupied_above(gq, r) {
            let q = choose|q: int| 0 <= q < r && !#[trigger] empty_at(gq, q);
            lemma_row_emptiness(post.board_matrix, r);
            lemma_row_emptiness(pre.board_matrix, r);
            lemma_row_emptiness(post.board_matrix, q);
            lemma_row_emptiness(pre.board_matrix, q);
            assert(empty_at(gp, r)) by {
                assert forall|c: int| 0 <= c < BOARD_COLS implies !occupied(pre.board_matrix, r, c) by {
                    assert(!occupied(post.board_matrix, r, c));
                }
            }
            let c0 = choose|c0: int| 0 <= c0 < BOARD_COLS && occupied(post.board_matrix, q, c0);
            if occupied(pre.board_matrix, q, c0) {
                assert(!empty_at(gp, q));
                assert(occupied_above(gp, r));
                assert(false);
            } else {
                assert(piece.covers_cell(q, c0));
                let k = choose|k: int|
                    0 <= k < 4 && world_col(x) + (#[trigger] shape(kind, state)[k]).x == c0 && world_row(y)
                        + shape(kind, state)[k].y == q;
                if r <= world_row(y) + s[i].y {
                    let t = r - world_row(y);
                    lemma_piece_rows_contiguous(kind, state, k, i, t);
                    let m = choose|m: int| 0 <= m < 4 && (#[trigger] shape(kind, state)[m]).y == t;
                    let cm = world_col(x) + s[m].x;
                    assert(0 <= cm < BOARD_COLS);
                    assert(covers(x, y, kind, state, r, cm));
                    assert(occupied(post.board_matrix, r, cm));
                    assert(false);
                }
                assert(r >= b);
                assert(b < BOARD_ROWS);
                assert(occupied(pre.board_matrix, b, bc));
                lemma_row_emptiness(pre.board_matrix, b);
                assert(!empty_at(gp, b));
                assert(r != b);
                assert(0 <= b < r && !empty_at(gp, b));
                assert(occupied_above(gp, r));
                assert(false);
            }
        }
    }
}

/// A step of the drop and lock state machine leaves a board without a gap
/// without a gap.
pub proof fn lemma_drop_step_keeps_no_gap(pre: GameData, delta: u64, post: GameData)
    requires
        drop_stepped(pre, delta, post),
        pre.wf(),
        has_no_gap(grid(pre.board_matrix)),
    ensures
        has_no_gap(grid(post.board_matrix)),
{
    if post.board_matrix != pre.board_matrix {
        let waited = GameData { lock_delay_timer: pre.lock_delay_timer.ticked(delta as int), ..pre };
        if locked(waited, post) && !can_fall(waited) {
            lemma_lock_keeps_no_gap(waited, post);
        } else {
            let timed = crate::drop::mode_timer_ticked(crate::drop::lock_delay_cancelled(pre), delta);
            assert(locked(timed, post) && !can_fall(timed));
            lemma_lock_keeps_no_gap(timed, post);
        }
    }
}

/// Line clearing leaves a board without a gap, whatever the board was.
pub proof fn lemma_line_clear_keeps_no_gap(pre: GameData, post: GameData)
    requires
        rows_cleared(pre, post),
        has_no_gap(grid(pre.board_matrix)),
    ensures
        has_no_gap(grid(post.board_matrix)),
{
    if post.board_matrix != pre.board_matrix {
        lemma_compaction_settles(grid(pre.board_matrix));
        lemma_no_gap_means_no_gap_rows(grid(post.board_matrix));
    }
}

/// An empty board has no gap.
pub proof fn lemma_empty_board_has_no_gap(board: Board)
    requires
        board_empty(board),
    ensures
        has_no_gap(grid(board)),
{
    assert forall|r: int| 0 <= r < BOARD_ROWS implies !(#[trigger] empty_at(grid(board), r) && occupied_above(
        grid(board),
        r,
    )) by {
        if occupied_above(grid(board), r) {
            let q = choose|q: int| 0 <= q < r && !#[trigger] empty_at(grid(board), q);
            lemma_row_emptiness(board, q);
        }
    }
}

/// No step makes a gap: a valid session whose board has no gap before a step
/// has a board without a gap after it, whatever the intent and the time.
pub proof fn lemma_step_keeps_no_gap(
    pre: GameData,
    queue: Seq<Block>,
    intent: Option<Intent>,
    delta: u64,
    begun: GameData,
    queue_begun: Seq<Block>,
    supplied: GameData,
    dropped: GameData,
    cleared: GameData,
    post: GameData,
    queue_post: Seq<Block>,
)
    requires
        step_stages(pre, queue, intent, delta, begun, queue_begun, supplied, dropped, cleared, post, queue_post),
        pre.wf(),
        has_no_gap(grid(pre.board_matrix)),
    ensures
        has_no_gap(grid(post.board_matrix)),
{
    if begun.board_matrix != pre.board_matrix {
        lemma_empty_board_has_no_gap(begun.board_matrix);
    }
    assert(begun.wf());
    assert(supplied.board_matrix == begun.board_matrix);
    if supplied.active != begun.active && supplied.active is Some {
        let piece = supplied.active.unwrap();
        lemma_fits_on_board(
            begun.board_matrix,
            piece.x as int,
            piece.y as int,
            piece.block.kind_of(),
            piece.block.state_of(),
        );
    }
    assert(supplied.wf());
    let aimed = drop_intent_applied(supplied, intent);
    assert(aimed.wf() && aimed.board_matrix == supplied.board_matrix);
    lemma_drop_step_keeps_no_gap(aimed, delta, dropped);
    lemma_line_clear_keeps_no_gap(dropped, cleared);
    assert(post.board_matrix == cleared.board_matrix);
}

} // verus!
