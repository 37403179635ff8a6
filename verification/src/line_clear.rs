use vstd::prelude::*;

use crate::board::{grid, occupied, Board, BOARD_COLS, BOARD_ROWS};
use crate::common_component::{GameData, GameState};
use crate::drop::sat_add;
use crate::gravity::{gravity, gravity_micros};

verus! {

/// The points for clearing `lines` rows at once, before the level multiplies
/// them.
pub open spec fn clear_points(lines: int) -> int {
    if lines == 1 {
        100
    } else if lines == 2 {
        300
    } else if lines == 3 {
        500
    } else if lines == 4 {
        800
    } else {
        0
    }
}

/// Whether `g` has the shape of a board: 20 rows of 10 cells.
pub open spec fn is_grid(g: Seq<Seq<bool>>) -> bool {
    &&& g.len() == BOARD_ROWS
    &&& forall|r: int| 0 <= r < BOARD_ROWS ==> (#[trigger] g[r]).len() == BOARD_COLS
}

/// Whether every cell of row `r` is occupied.
pub open spec fn full_at(g: Seq<Seq<bool>>, r: int) -> bool {
    forall|c: int| 0 <= c < BOARD_COLS ==> #[trigger] g[r][c]
}

/// Whether no cell of row `r` is occupied.
pub open spec fn empty_at(g: Seq<Seq<bool>>, r: int) -> bool {
    forall|c: int| 0 <= c < BOARD_COLS ==> !#[trigger] g[r][c]
}

/// The indices of the full rows among the first `n` rows, ascending.
pub open spec fn full_rows(g: Seq<Seq<bool>>, n: int) -> Seq<int>
    decreases n,
{
    if n <= 0 {
        Seq::empty()
    } else if full_at(g, n - 1) {
        full_rows(g, n - 1).push(n - 1)
    } else {
        full_rows(g, n - 1)
    }
}

/// The grid with every full row emptied.
pub open spec fn cleared(g: Seq<Seq<bool>>) -> Seq<Seq<bool>> {
    Seq::new(
        BOARD_ROWS as nat,
        |r: int| Seq::new(BOARD_COLS as nat, |c: int| g[r][c] && !full_at(g, r)),
    )
}

/// Whether some row above row `r` holds an occupied cell.
pub open spec fn occupied_above(g: Seq<Seq<bool>>, r: int) -> bool {
    exists|q: int| 0 <= q < r && !#[trigger] empty_at(g, q)
}

/// The indices of the gaps among the first `n` rows, ascending: the empty
/// rows that lie below some row with an occupied cell.
pub open spec fn gap_rows(g: Seq<Seq<bool>>, n: int) -> Seq<int>
    decreases n,
{
    if n <= 0 {
        Seq::empty()
    } else if empty_at(g, n - 1) && occupied_above(g, n - 1) {
        gap_rows(g, n - 1).push(n - 1)
    } else {
        gap_rows(g, n - 1)
    }
}

/// The number of rows directly above row `i` that move when row `i` is
/// filled from above: the rows from `i - 1` upwards, as far as none is empty.
pub open spec fn run_above(g: Seq<Seq<bool>>, i: int) -> int
    decreases i,
{
    if i <= 0 || empty_at(g, i - 1) {
        0
    } else {
        1 + run_above(g, i - 1)
    }
}

/// The grid after row `i` has been filled from above: the run of rows
/// directly above `i` moves down by one, the row at the top of the run
/// becomes empty, and every other row stays.
pub open spec fn shift_down(g: Seq<Seq<bool>>, i: int) -> Seq<Seq<bool>> {
    Seq::new(
        BOARD_ROWS as nat,
        |r: int|
            Seq::new(
                BOARD_COLS as nat,
                |c: int|
                    if i - run_above(g, i) < r <= i {
                        g[r - 1][c]
                    } else if r == i - run_above(g, i) && run_above(g, i) > 0 {
                        false
                    } else {
                        g[r][c]
                    },
            ),
    )
}

/// The grid after the rows `rows` have been filled from above, one after the
/// other in the order given.
pub open spec fn shift_all(g: Seq<Seq<bool>>, rows: Seq<int>) -> Seq<Seq<bool>>
    decreases rows.len(),
{
    if rows.len() == 0 {
        g
    } else {
        shift_all(shift_down(g, rows[0]), rows.skip(1))
    }
}

/// The grid after line clearing: the full rows are emptied, then every gap of
/// the emptied grid is filled from above, from the top gap to the bottom one.
pub open spec fn compacted(g: Seq<Seq<bool>>) -> Seq<Seq<bool>> {
    shift_all(cleared(g), gap_rows(cleared(g), BOARD_ROWS as int))
}

/// How many of `rows` lie below row `j`.
pub open spec fn count_below(rows: Seq<int>, j: int) -> int
    decreases rows.len(),
{
    if rows.len() == 0 {
        0
    } else {
        count_below(rows.drop_last(), j) + if rows.last() > j {
            1int
        } else {
            0int
        }
    }
}

/// By how many rows line clearing moves the contents of row `j` down: the
/// number of gaps below it once the full rows are emptied; a full row itself
/// is removed and moves nowhere.
pub open spec fn rows_moved_down(g: Seq<Seq<bool>>, j: int) -> int {
    if full_at(g, j) {
        0
    } else {
        count_below(gap_rows(cleared(g), BOARD_ROWS as int), j)
    }
}

/// Line clearing's report for a session: for each row of its board, by how
/// many rows line clearing moves the contents of that row down; all zero
/// where line clearing has nothing to do.
pub open spec fn row_moves(g: GameData) -> Seq<u8> {
    Seq::new(
        BOARD_ROWS as nat,
        |j: int|
            if has_full_row(g) {
                rows_moved_down(grid(g.board_matrix), j) as u8
            } else {
                0u8
            },
    )
}

/// The level reached with `lines` rows cleared.
pub open spec fn level_of(lines: int) -> int {
    lines / 10 + 1
}

/// Whether line clearing has work to do: the session is in play and its
/// board holds a full row.
pub open spec fn has_full_row(g: GameData) -> bool {
    g.state == GameState::Playing && full_rows(grid(g.board_matrix), BOARD_ROWS as int).len() > 0
}

/// Whether `post` is `pre` after line clearing. Outside play, or with no full
/// row, nothing changes. Otherwise the points of the rows cleared at once,
/// times the level before the clear, are added to the score; the rows are
/// counted and the level follows; the gravity timer takes the interval of the
/// new level and keeps its progress; and the board is compacted.
pub open spec fn rows_cleared(pre: GameData, post: GameData) -> bool {
    let g = grid(pre.board_matrix);
    let count = full_rows(g, BOARD_ROWS as int).len() as int;
    if !has_full_row(pre) {
        post == pre
    } else {
        let lines = sat_add(pre.lines_cleared, count);
        &&& grid(post.board_matrix) == compacted(g)
        &&& post == (GameData {
            board_matrix: post.board_matrix,
            score: sat_add(pre.score, clear_points(count) * pre.level),
            lines_cleared: lines,
            level: level_of(lines as int) as u32,
            drop_timer: pre.drop_timer.with_interval(gravity(level_of(lines as int)) as u64),
            ..pre
        })
    }
}

/// The points for clearing `lines` rows at once: 100, 300, 500 and 800 for
/// one to four rows, and nothing for any other number.
pub fn line_clear_points(lines: usize) -> (points: u32)
    ensures
        points == clear_points(lines as int),
{
    match lines {
        1 => 100,
        2 => 300,
        3 => 500,
        4 => 800,
        _ => 0,
    }
}

/// Whether every cell of row `r` is occupied.
pub fn row_is_full(board: &Board, r: usize) -> (full: bool)
    requires
        r < BOARD_ROWS,
    ensures
        full == full_at(grid(*board), r as int),
{
    let mut c: usize = 0;
    while c < BOARD_COLS
        invariant
            0 <= c <= BOARD_COLS,
            r < BOARD_ROWS,
            forall|k: int| 0 <= k < c ==> #[trigger] grid(*board)[r as int][k],
        decreases BOARD_COLS - c,
    {
        if !board[r][c] {
            assert(!grid(*board)[r as int][c as int]);
            return false;
        }
        assert(grid(*board)[r as int][c as int]);
        c += 1;
    }
    true
}

/// Whether no cell of row `r` is occupied.
pub fn row_is_empty(board: &Board, r: usize) -> (empty: bool)
    requires
        r < BOARD_ROWS,
    ensures
        empty == empty_at(grid(*board), r as int),
{
    let mut c: usize = 0;
    while c < BOARD_COLS
        invariant
            0 <= c <= BOARD_COLS,
            r < BOARD_ROWS,
            forall|k: int| 0 <= k < c ==> !#[trigger] grid(*board)[r as int][k],
        decreases BOARD_COLS - c,
    {
        if board[r][c] {
            assert(grid(*board)[r as int][c as int]);
            return false;
        }
        assert(!grid(*board)[r as int][c as int]);
        c += 1;
    }
    true
}

/// The indices of the full rows of the board, ascending.
pub fn full_lines(board: &Board) -> (rows: Vec<usize>)
    ensures
        rows@.map_values(|i: usize| i as int) == full_rows(grid(*board), BOARD_ROWS as int),
        rows@.len() <= BOARD_ROWS,
{
    let mut rows: Vec<usize> = Vec::new();
    let mut r: usize = 0;
    while r < BOARD_ROWS
        invariant
            0 <= r <= BOARD_ROWS,
            rows@.map_values(|i: usize| i as int) =~= full_rows(grid(*board), r as int),
            rows@.len() <= r,
        decreases BOARD_ROWS - r,
    {
        if row_is_full(board, r) {
            rows.push(r);
        }
        r += 1;
    }
    rows
}

/// The indices of the gaps of the board, ascending: the empty rows that lie
/// below some row with an occupied cell.
pub fn gap_lines(board: &Board) -> (rows: Vec<usize>)
    ensures
        rows@.map_values(|i: usize| i as int) == gap_rows(grid(*board), BOARD_ROWS as int),
        forall|k: int| 0 <= k < rows@.len() ==> 0 < #[trigger] rows@[k] < BOARD_ROWS,
        rows@.len() <= BOARD_ROWS,
{
    let mut rows: Vec<usize> = Vec::new();
    let mut reached: bool = false;
    let mut r: usize = 0;
    while r < BOARD_ROWS
        invariant
            0 <= r <= BOARD_ROWS,
            rows@.map_values(|i: usize| i as int) =~= gap_rows(grid(*board), r as int),
            reached == occupied_above(grid(*board), r as int),
            forall|k: int| 0 <= k < rows@.len() ==> 0 < #[trigger] rows@[k] < BOARD_ROWS,
            rows@.len() <= r,
        decreases BOARD_ROWS - r,
    {
        let empty = row_is_empty(board, r);
        if empty && reached {
            rows.push(r);
        }
        proof {
            let g = grid(*board);
            if reached {
                let q = choose|q: int| 0 <= q < r && !#[trigger] empty_at(g, q);
                assert(0 <= q < r + 1 && !empty_at(g, q));
            } else if !empty {
                assert(0 <= r < r + 1 && !empty_at(g, r as int));
            } else {
                assert forall|q: int| 0 <= q < r + 1 implies #[trigger] empty_at(g, q) by {
                    if q < r {
                    }
                }
            }
        }
        if !empty {
            reached = true;
        }
        r += 1;
    }
    rows
}

proof fn lemma_run_above_local(g: Seq<Seq<bool>>, h: Seq<Seq<bool>>, i: int)
    requires
        forall|r: int| 0 <= r < i ==> empty_at(g, r) == empty_at(h, r),
    ensures
        run_above(g, i) == run_above(h, i),
        0 <= run_above(g, i),
        i >= 0 ==> run_above(g, i) <= i,
    decreases i,
{
    if i > 0 {
        assert(empty_at(g, i - 1) == empty_at(h, i - 1));
        lemma_run_above_local(g, h, i - 1);
    }
}

/// Fills row `i` from above: as long as the row directly above the one to be
/// filled is not empty, that row moves down by one and gives its place to the
/// next; the first empty row, or the top of the board, ends the cascade.
pub fn eliminate_line_inner(board: &mut Board, i: usize)
    requires
        0 < i < BOARD_ROWS,
    ensures
        grid(*final(board)) == shift_down(grid(*old(board)), i as int),
    decreases i,
{
    let ghost g0 = grid(*board);
    proof {
        lemma_run_above_local(g0, g0, i as int);
    }
    if row_is_empty(board, i - 1) {
        assert(grid(*board) =~~= shift_down(g0, i as int));
        return ;
    }
    board[i] = board[i - 1];
    board[i - 1] = [false; BOARD_COLS];
    let ghost g1 = grid(*board);
    assert(g1[i as int] =~= g0[i - 1]);
    assert(empty_at(g1, i - 1));
    assert(forall|r: int| 0 <= r < BOARD_ROWS && r != i && r != i - 1 ==> #[trigger] g1[r] =~= g0[r]);
    if i - 1 == 0 {
        assert(run_above(g0, i - 1) == 0);
        assert(grid(*board) =~~= shift_down(g0, i as int));
        return ;
    }
    eliminate_line_inner(board, i - 1);
    proof {
        assert forall|r: int| 0 <= r < i - 1 implies empty_at(g1, r) == empty_at(g0, r) by {
            assert(g1[r] =~= g0[r]);
        }
        lemma_run_above_local(g1, g0, i - 1);
        let k = run_above(g0, i as int);
        assert(run_above(g1, i - 1) == k - 1);
        assert(grid(*board) =~~= shift_down(g0, i as int)) by {
            assert forall|r: int| 0 <= r < BOARD_ROWS implies #[trigger] grid(*board)[r] =~= shift_down(
                g0,
                i as int,
            )[r] by {
                assert(grid(*board)[r] == shift_down(g1, i - 1)[r]);
                if 0 < r {
                    assert(g1[r - 1].len() == BOARD_COLS);
                }
            }
        }
    }
}

/// The full rows among the first `n` are listed in ascending order, each full
/// row once and no other row.
pub proof fn lemma_full_rows_exact(g: Seq<Seq<bool>>, n: int)
    ensures
        forall|k: int| 0 <= k < full_rows(g, n).len() ==> 0 <= #[trigger] full_rows(g, n)[k] < n && full_at(
            g,
            full_rows(g, n)[k],
        ),
        forall|k: int, m: int| 0 <= k < m < full_rows(g, n).len() ==> full_rows(g, n)[k] < full_rows(g, n)[m],
        forall|r: int| 0 <= r < n && full_at(g, r) ==> full_rows(g, n).contains(r),
        full_rows(g, n).len() <= if n < 0 { 0 } else { n },
    decreases n,
{
    if n > 0 {
        lemma_full_rows_exact(g, n - 1);
        let prev = full_rows(g, n - 1);
        let cur = full_rows(g, n);
        if full_at(g, n - 1) {
            assert(cur[cur.len() - 1] == n - 1);
            assert forall|r: int| 0 <= r < n && full_at(g, r) implies cur.contains(r) by {
                if r < n - 1 {
                    let k = choose|k: int| 0 <= k < prev.len() && prev[k] == r;
                    assert(cur[k] == r);
                } else {
                    assert(cur[cur.len() - 1] == r);
                }
            }
        }
    }
}

/// No more of `rows` lie below row `j` than `rows` holds.
pub proof fn lemma_count_below_bounds(rows: Seq<int>, j: int)
    ensures
        0 <= count_below(rows, j) <= rows.len(),
    decreases rows.len(),
{
    if rows.len() > 0 {
        lemma_count_below_bounds(rows.drop_last(), j);
    }
}

/// A vector of 20 zeros: no row moves.
fn no_moves() -> (moves: Vec<u8>)
    ensures
        moves@.len() == BOARD_ROWS,
        forall|j: int| 0 <= j < BOARD_ROWS ==> moves@[j] == 0,
{
    let mut moves: Vec<u8> = Vec::new();
    let mut j: usize = 0;
    while j < BOARD_ROWS
        invariant
            0 <= j <= BOARD_ROWS,
            moves@.len() == j,
            forall|k: int| 0 <= k < j ==> moves@[k] == 0,
        decreases BOARD_ROWS - j,
    {
        moves.push(0);
        j += 1;
    }
    moves
}

/// Empties every full row of the board.
fn clear_full_lines(board: &mut Board)
    ensures
        grid(*final(board)) == cleared(grid(*old(board))),
{
    let ghost g0 = grid(*board);
    let mut r: usize = 0;
    while r < BOARD_ROWS
        invariant
            0 <= r <= BOARD_ROWS,
            forall|q: int| 0 <= q < r ==> #[trigger] grid(*board)[q] =~= cleared(g0)[q],
            forall|q: int| r <= q < BOARD_ROWS ==> #[trigger] grid(*board)[q] =~= g0[q],
        decreases BOARD_ROWS - r,
    {
        let ghost before = grid(*board);
        assert(before[r as int] =~= g0[r as int]);
        if row_is_full(board, r) {
            board[r] = [false; BOARD_COLS];
        }
        proof {
            assert(grid(*board)[r as int] =~= cleared(g0)[r as int]);
            assert forall|q: int| 0 <= q < r implies #[trigger] grid(*board)[q] =~= cleared(g0)[q] by {
                assert(grid(*board)[q] =~= before[q]);
            }
            assert forall|q: int| r + 1 <= q < BOARD_ROWS implies #[trigger] grid(*board)[q] =~= g0[q] by {
                assert(grid(*board)[q] =~= before[q]);
            }
        }
        r += 1;
    }
    assert(grid(*board) =~= cleared(g0));
}

/// Fills the rows `gaps` from above, one after the other.
fn fill_gaps(board: &mut Board, gaps: &Vec<usize>)
    requires
        forall|k: int| 0 <= k < gaps@.len() ==> 0 < #[trigger] gaps@[k] < BOARD_ROWS,
    ensures
        grid(*final(board)) == shift_all(grid(*old(board)), gaps@.map_values(|i: usize| i as int)),
{
    let ghost g0 = grid(*board);
    let ghost rows = gaps@.map_values(|i: usize| i as int);
    let mut k: usize = 0;
    assert(rows.skip(0) =~= rows);
    while k < gaps.len()
        invariant
            0 <= k <= gaps@.len(),
            rows == gaps@.map_values(|i: usize| i as int),
            forall|m: int| 0 <= m < gaps@.len() ==> 0 < #[trigger] gaps@[m] < BOARD_ROWS,
            shift_all(grid(*board), rows.skip(k as int)) == shift_all(g0, rows),
        decreases gaps@.len() - k,
    {
        let ghost before = grid(*board);
        eliminate_line_inner(board, gaps[k]);
        proof {
            assert(rows.skip(k as int)[0] == gaps@[k as int] as int);
            assert(rows.skip(k as int).skip(1) =~= rows.skip(k + 1));
        }
        k += 1;
    }
    assert(rows.skip(k as int).len() == 0);
}

/// Whether `rows` holds `j`.
fn holds_row(rows: &Vec<usize>, j: usize) -> (found: bool)
    ensures
        found == rows@.map_values(|i: usize| i as int).contains(j as int),
{
    let ghost ints = rows@.map_values(|i: usize| i as int);
    let mut k: usize = 0;
    while k < rows.len()
        invariant
            0 <= k <= rows@.len(),
            ints == rows@.map_values(|i: usize| i as int),
            forall|m: int| 0 <= m < k ==> ints[m] != j,
        decreases rows@.len() - k,
    {
        if rows[k] == j {
            assert(ints[k as int] == j);
            return true;
        }
        k += 1;
    }
    false
}

/// How many of `rows` lie below row `j`.
fn rows_below(rows: &Vec<usize>, j: usize) -> (count: u8)
    requires
        rows@.len() <= BOARD_ROWS,
    ensures
        count == count_below(rows@.map_values(|i: usize| i as int), j as int),
{
    let ghost ints = rows@.map_values(|i: usize| i as int);
    let mut count: u8 = 0;
    let mut k: usize = 0;
    while k < rows.len()
        invariant
            0 <= k <= rows@.len(),
            rows@.len() <= BOARD_ROWS,
            ints == rows@.map_values(|i: usize| i as int),
            count == count_below(ints.take(k as int), j as int),
            count <= k,
        decreases rows@.len() - k,
    {
        proof {
            assert(ints.take(k + 1).drop_last() =~= ints.take(k as int));
            assert(ints.take(k + 1).last() == rows@[k as int] as int);
        }
        if rows[k] > j {
            count += 1;
        }
        k += 1;
    }
    assert(ints.take(k as int) =~= ints);
    count
}

/// Line clearing, run once per step after locking. Returns, for each row of
/// the board before the clear, by how many rows its contents moved down.
pub fn eliminate_line_system(game: &mut GameData) -> (moves: Vec<u8>)
    ensures
        rows_cleared(*old(game), *final(game)),
        moves@ == row_moves(*old(game)),
        old(game).wf() ==> final(game).wf(),
{
    let ghost g0 = grid(game.board_matrix);
    if game.state != GameState::Playing {
        let moves = no_moves();
        assert(moves@ =~= row_moves(*game));
        return moves;
    }
    let full = full_lines(&game.board_matrix);
    if full.len() == 0 {
        let moves = no_moves();
        assert(moves@ =~= row_moves(*game));
        return moves;
    }
    proof {
        lemma_full_rows_exact(g0, BOARD_ROWS as int);
    }
    let lines_count = full.len();
    let points: u64 = line_clear_points(lines_count) as u64 * game.level as u64;
    game.score = if points > (u32::MAX - game.score) as u64 {
        u32::MAX
    } else {
        game.score + points as u32
    };
    game.lines_cleared = game.lines_cleared.saturating_add(lines_count as u32);
    game.level = game.lines_cleared / 10 + 1;
    game.drop_timer.set_duration(gravity_micros(game.level));
    clear_full_lines(&mut game.board_matrix);
    let gaps = gap_lines(&game.board_matrix);
    fill_gaps(&mut game.board_matrix, &gaps);
    assert forall|k: int| 0 <= k < BOARD_ROWS implies 0 <= #[trigger] rows_moved_down(g0, k) <= BOARD_ROWS by {
        lemma_count_below_bounds(gap_rows(cleared(g0), BOARD_ROWS as int), k);
    }
    let mut moves: Vec<u8> = Vec::new();
    let mut j: usize = 0;
    while j < BOARD_ROWS
        invariant
            0 <= j <= BOARD_ROWS,
            moves@.len() == j,
            gaps@.len() <= BOARD_ROWS,
            full@.map_values(|i: usize| i as int) == full_rows(g0, BOARD_ROWS as int),
            gaps@.map_values(|i: usize| i as int) == gap_rows(cleared(g0), BOARD_ROWS as int),
            forall|k: int| 0 <= k < full_rows(g0, BOARD_ROWS as int).len() ==> full_at(
                g0,
                #[trigger] full_rows(g0, BOARD_ROWS as int)[k],
            ),
            forall|r: int| 0 <= r < BOARD_ROWS && full_at(g0, r) ==> full_rows(g0, BOARD_ROWS as int).contains(r),
            forall|k: int| 0 <= k < j ==> #[trigger] moves@[k] as int == rows_moved_down(g0, k),
            forall|k: int| 0 <= k < BOARD_ROWS ==> 0 <= #[trigger] rows_moved_down(g0, k) <= BOARD_ROWS,
        decreases BOARD_ROWS - j,
    {
        let gone = holds_row(&full, j);
        assert(gone == full_at(g0, j as int));
        let by: u8 = if gone {
            0
        } else {
            rows_below(&gaps, j)
        };
        moves.push(by);
        j += 1;
    }
    assert(moves@ =~= row_moves(*old(game)));
    moves
}

} // verus!
