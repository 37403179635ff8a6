use vstd::prelude::*;

use crate::board::{BOARD_COLS, BOARD_ROWS};
use crate::line_clear::{
    cleared, compacted, count_below, empty_at, full_at, full_rows, gap_rows, is_grid, lemma_count_below_bounds,
    occupied_above, rows_moved_down, run_above, shift_all, shift_down,
};

verus! {

/// A row with no occupied cell.
pub open spec fn empty_row() -> Seq<bool> {
    Seq::new(BOARD_COLS as nat, |c: int| false)
}

/// Whether `row` holds no occupied cell.
pub open spec fn is_blank(row: Seq<bool>) -> bool {
    forall|c: int| 0 <= c < BOARD_COLS ==> !#[trigger] row[c]
}

/// The rows among the first `n` rows of `g` that hold an occupied cell, from
/// the top down.
pub open spec fn packed(g: Seq<Seq<bool>>, n: int) -> Seq<Seq<bool>>
    decreases n,
{
    if n <= 0 {
        Seq::empty()
    } else if empty_at(g, n - 1) {
        packed(g, n - 1)
    } else {
        packed(g, n - 1).push(g[n - 1])
    }
}

/// The grid `g` with its first `n` rows settled: the rows among them that
/// hold an occupied cell stand directly above row `n`, in the order they had,
/// and the rows above those are empty; the rows from `n` on are as in `g`.
pub open spec fn stacked(g: Seq<Seq<bool>>, n: int) -> Seq<Seq<bool>> {
    Seq::new(
        BOARD_ROWS as nat,
        |q: int|
            if q < n - packed(g, n).len() {
                empty_row()
            } else if q < n {
                packed(g, n)[q - (n - packed(g, n).len())]
            } else {
                g[q]
            },
    )
}

proof fn lemma_empty_at_is_blank(g: Seq<Seq<bool>>, r: int)
    ensures
        empty_at(g, r) == is_blank(g[r]),
{
    if empty_at(g, r) {
        assert forall|c: int| 0 <= c < BOARD_COLS implies !#[trigger] g[r][c] by {}
    }
    if is_blank(g[r]) {
        assert forall|c: int| 0 <= c < BOARD_COLS implies !#[trigger] g[r][c] by {}
    }
}

proof fn lemma_packed_rows(g: Seq<Seq<bool>>, n: int)
    requires
        is_grid(g),
        0 <= n <= BOARD_ROWS,
    ensures
        packed(g, n).len() <= n,
        forall|i: int|
            0 <= i < packed(g, n).len() ==> (#[trigger] packed(g, n)[i]).len() == BOARD_COLS && !is_blank(
                packed(g, n)[i],
            ),
        (packed(g, n).len() > 0) == occupied_above(g, n),
    decreases n,
{
    if n > 0 {
        lemma_packed_rows(g, n - 1);
        lemma_empty_at_is_blank(g, n - 1);
        if occupied_above(g, n - 1) {
            let q = choose|q: int| 0 <= q < n - 1 && !#[trigger] empty_at(g, q);
            assert(0 <= q < n && !empty_at(g, q));
        }
        if !empty_at(g, n - 1) {
            assert(0 <= n - 1 < n && !empty_at(g, n - 1));
        }
        if occupied_above(g, n) {
            let q = choose|q: int| 0 <= q < n && !#[trigger] empty_at(g, q);
            if q < n - 1 {
                assert(occupied_above(g, n - 1));
            }
        }
    }
}

proof fn lemma_shift_all_push(g: Seq<Seq<bool>>, rows: Seq<int>, x: int)
    ensures
        shift_all(g, rows.push(x)) == shift_down(shift_all(g, rows), x),
    decreases rows.len(),
{
    if rows.len() == 0 {
        assert(rows.push(x).skip(1) =~= Seq::<int>::empty());
        assert(shift_all(shift_down(g, x), Seq::<int>::empty()) == shift_down(g, x));
    } else {
        assert(rows.push(x).skip(1) =~= rows.skip(1).push(x));
        assert(rows.push(x)[0] == rows[0]);
        lemma_shift_all_push(shift_down(g, rows[0]), rows.skip(1), x);
    }
}

proof fn lemma_run_above_is(s: Seq<Seq<bool>>, n: int, k: int)
    requires
        0 <= k <= n,
        forall|q: int| n - k <= q < n ==> !#[trigger] empty_at(s, q),
        n - k == 0 || empty_at(s, n - k - 1),
    ensures
        run_above(s, n) == k,
    decreases k,
{
    if k > 0 {
        assert(!empty_at(s, n - 1));
        lemma_run_above_is(s, n - 1, k - 1);
    }
}

proof fn lemma_stacked_is_grid(g: Seq<Seq<bool>>, n: int)
    requires
        is_grid(g),
        0 <= n <= BOARD_ROWS,
    ensures
        is_grid(stacked(g, n)),
        forall|q: int| 0 <= q < n - packed(g, n).len() ==> empty_at(stacked(g, n), q),
        forall|q: int| n - packed(g, n).len() <= q < n ==> !#[trigger] empty_at(stacked(g, n), q),
{
    lemma_packed_rows(g, n);
    let s = stacked(g, n);
    let k = packed(g, n).len();
    assert forall|q: int| n - k <= q < n implies !#[trigger] empty_at(s, q) by {
        lemma_empty_at_is_blank(s, q);
        assert(s[q] == packed(g, n)[q - (n - k)]);
    }
    assert forall|q: int| 0 <= q < n - k implies empty_at(s, q) by {
        lemma_empty_at_is_blank(s, q);
        assert(s[q] == empty_row());
    }
}

/// Filling the gaps among the first `n` rows from above, from the top gap
/// down, settles these rows.
proof fn lemma_gaps_filled(g: Seq<Seq<bool>>, n: int)
    requires
        is_grid(g),
        0 <= n <= BOARD_ROWS,
    ensures
        shift_all(g, gap_rows(g, n)) == stacked(g, n),
    decreases n,
{
    if n == 0 {
        assert(stacked(g, 0) =~= g);
    } else {
        lemma_gaps_filled(g, n - 1);
        lemma_packed_rows(g, n - 1);
        lemma_packed_rows(g, n);
        lemma_stacked_is_grid(g, n - 1);
        let m = n - 1;
        let s = stacked(g, m);
        let k = packed(g, m).len() as int;
        if !empty_at(g, m) {
            assert(stacked(g, n) =~= s);
        } else if !occupied_above(g, m) {
            lemma_empty_at_is_blank(g, m);
            assert(stacked(g, n)[m] =~= s[m]);
            assert(stacked(g, n) =~= s);
        } else {
            lemma_shift_all_push(g, gap_rows(g, m), m);
            assert(empty_at(s, m)) by {
                lemma_empty_at_is_blank(s, m);
                lemma_empty_at_is_blank(g, m);
            }
            lemma_run_above_is(s, m, k);
            let t = shift_down(s, m);
            assert forall|q: int| 0 <= q < BOARD_ROWS implies #[trigger] t[q] =~= stacked(g, n)[q] by {
                if m - k < q <= m {
                    assert(s[q - 1].len() == BOARD_COLS);
                } else if q == m - k {
                } else if q < m - k {
                    assert(s[q] == empty_row());
                } else {
                    assert(s[q] == g[q]);
                }
            }
            assert(t =~= stacked(g, n));
        }
    }
}

/// Line clearing leaves a settled board: the rows that were neither full nor
/// empty stand at the bottom of the board, in the order they had, and every
/// row above them is empty. No row is lost, none is made, and none overtakes
/// another.
pub proof fn lemma_compaction_settles(g: Seq<Seq<bool>>)
    ensures
        compacted(g) == stacked(cleared(g), BOARD_ROWS as int),
        packed(cleared(g), BOARD_ROWS as int).len() <= BOARD_ROWS,
        forall|q: int|
            0 <= q < BOARD_ROWS - packed(cleared(g), BOARD_ROWS as int).len() ==> empty_at(compacted(g), q),
        forall|q: int|
            BOARD_ROWS - packed(cleared(g), BOARD_ROWS as int).len() <= q < BOARD_ROWS ==> !#[trigger] empty_at(
                compacted(g),
                q,
            ),
        gap_rows(compacted(g), BOARD_ROWS as int).len() == 0,
{
    let c = cleared(g);
    assert(is_grid(c));
    lemma_gaps_filled(c, BOARD_ROWS as int);
    lemma_packed_rows(c, BOARD_ROWS as int);
    lemma_stacked_is_grid(c, BOARD_ROWS as int);
    lemma_no_gaps(compacted(g), BOARD_ROWS as int - packed(c, BOARD_ROWS as int).len(), BOARD_ROWS as int);
}

proof fn lemma_no_gaps(s: Seq<Seq<bool>>, top: int, n: int)
    requires
        0 <= top <= BOARD_ROWS,
        0 <= n <= BOARD_ROWS,
        forall|q: int| 0 <= q < top ==> empty_at(s, q),
        forall|q: int| top <= q < BOARD_ROWS ==> !#[trigger] empty_at(s, q),
    ensures
        gap_rows(s, n).len() == 0,
    decreases n,
{
    if n > 0 {
        lemma_no_gaps(s, top, n - 1);
        if empty_at(s, n - 1) && occupied_above(s, n - 1) {
            let q = choose|q: int| 0 <= q < n - 1 && !#[trigger] empty_at(s, q);
            assert(q >= top);
            assert(n - 1 < top);
        }
    }
}

proof fn lemma_packed_prefix(g: Seq<Seq<bool>>, r: int, n: int)
    requires
        0 <= r <= n,
    ensures
        packed(g, r).len() <= packed(g, n).len(),
        packed(g, n).len() - packed(g, r).len() <= n - r,
        forall|i: int| 0 <= i < packed(g, r).len() ==> packed(g, n)[i] == packed(g, r)[i],
    decreases n - r,
{
    if r < n {
        lemma_packed_prefix(g, r, n - 1);
    }
}

proof fn lemma_gaps_below(g: Seq<Seq<bool>>, r: int, n: int)
    requires
        0 <= r < n,
        !empty_at(g, r),
    ensures
        r + count_below(gap_rows(g, n), r) == n - 1 - (packed(g, n).len() - packed(g, r + 1).len()),
    decreases n,
{
    if n == r + 1 {
        lemma_no_gap_below(g, r + 1, r);
    } else {
        lemma_gaps_below(g, r, n - 1);
        if empty_at(g, n - 1) {
            assert(0 <= r < n - 1 && !empty_at(g, r));
            assert(occupied_above(g, n - 1));
            let rows = gap_rows(g, n - 1);
            assert(rows.push(n - 1).drop_last() =~= rows);
            assert(rows.push(n - 1).last() == n - 1);
        }
    }
}

proof fn lemma_no_gap_below(g: Seq<Seq<bool>>, n: int, j: int)
    requires
        n <= j + 1,
    ensures
        count_below(gap_rows(g, n), j) == 0,
    decreases n,
{
    if n > 0 {
        lemma_no_gap_below(g, n - 1, j);
        if empty_at(g, n - 1) && occupied_above(g, n - 1) {
            let rows = gap_rows(g, n - 1);
            assert(rows.push(n - 1).drop_last() =~= rows);
            assert(rows.push(n - 1).last() == n - 1);
        }
    }
}

/// Line clearing moves the rows as it reports: a row that is neither full
/// nor empty is found, unchanged, as many rows further down as the report
/// says for it.
pub proof fn lemma_rows_move_as_reported(g: Seq<Seq<bool>>, j: int)
    requires
        is_grid(g),
        0 <= j < BOARD_ROWS,
        !full_at(g, j),
        !empty_at(g, j),
    ensures
        j <= j + rows_moved_down(g, j) < BOARD_ROWS,
        compacted(g)[j + rows_moved_down(g, j)] == g[j],
{
    let c = cleared(g);
    let n = BOARD_ROWS as int;
    assert(c[j] =~= g[j]);
    assert(!empty_at(c, j)) by {
        lemma_empty_at_is_blank(c, j);
        lemma_empty_at_is_blank(g, j);
    }
    lemma_compaction_settles(g);
    lemma_gaps_below(c, j, n);
    lemma_packed_prefix(c, j + 1, n);
    lemma_packed_prefix(c, j, j + 1);
    let k = packed(c, n).len() as int;
    let i = packed(c, j).len() as int;
    assert(packed(c, j + 1) == packed(c, j).push(c[j]));
    assert(packed(c, j + 1)[i] == c[j]);
    assert(packed(c, n)[i] == c[j]);
    assert(j + rows_moved_down(g, j) == n - k + i);
}

/// No row is reported as moving by more rows than the board has, and a full
/// row, which is removed, is reported as not moving.
pub proof fn lemma_row_moves_bounded(g: Seq<Seq<bool>>, j: int)
    ensures
        0 <= rows_moved_down(g, j) <= BOARD_ROWS,
        full_at(g, j) ==> rows_moved_down(g, j) == 0,
{
    lemma_count_below_bounds(gap_rows(cleared(g), BOARD_ROWS as int), j);
    lemma_gap_rows_len(cleared(g), BOARD_ROWS as int);
}

proof fn lemma_gap_rows_len(g: Seq<Seq<bool>>, n: int)
    requires
        0 <= n,
    ensures
        gap_rows(g, n).len() <= n,
    decreases n,
{
    if n > 0 {
        lemma_gap_rows_len(g, n - 1);
    }
}

/// Whether the grid has no gap: no empty row lies below a row that holds an
/// occupied cell.
pub open spec fn has_no_gap(g: Seq<Seq<bool>>) -> bool {
    forall|r: int| 0 <= r < BOARD_ROWS ==> !(#[trigger] empty_at(g, r) && occupied_above(g, r))
}

proof fn lemma_gap_rows_hold_each_gap(g: Seq<Seq<bool>>, n: int, r: int)
    requires
        0 <= r < n,
        empty_at(g, r),
        occupied_above(g, r),
    ensures
        gap_rows(g, n).len() > 0,
    decreases n,
{
    if r < n - 1 {
        lemma_gap_rows_hold_each_gap(g, n - 1, r);
    }
}

/// A grid has no gap exactly if its list of gaps is empty.
pub proof fn lemma_no_gap_means_no_gap_rows(g: Seq<Seq<bool>>)
    ensures
        has_no_gap(g) == (gap_rows(g, BOARD_ROWS as int).len() == 0),
{
    if has_no_gap(g) {
        lemma_gap_rows_empty(g, BOARD_ROWS as int);
    }
    if gap_rows(g, BOARD_ROWS as int).len() == 0 {
        assert forall|r: int| 0 <= r < BOARD_ROWS implies !(#[trigger] empty_at(g, r) && occupied_above(g, r)) by {
            if empty_at(g, r) && occupied_above(g, r) {
                lemma_gap_rows_hold_each_gap(g, BOARD_ROWS as int, r);
            }
        }
    }
}

proof fn lemma_gap_rows_empty(g: Seq<Seq<bool>>, n: int)
    requires
        has_no_gap(g),
        0 <= n <= BOARD_ROWS,
    ensures
        gap_rows(g, n).len() == 0,
    decreases n,
{
    if n > 0 {
        lemma_gap_rows_empty(g, n - 1);
        assert(!(empty_at(g, n - 1) && occupied_above(g, n - 1)));
    }
}

proof fn lemma_no_full_row_below(g: Seq<Seq<bool>>, n: int, j: int)
    requires
        n <= j + 1,
    ensures
        count_below(full_rows(g, n), j) == 0,
    decreases n,
{
    if n > 0 {
        lemma_no_full_row_below(g, n - 1, j);
        if full_at(g, n - 1) {
            let rows = full_rows(g, n - 1);
            assert(rows.push(n - 1).drop_last() =~= rows);
            assert(rows.push(n - 1).last() == n - 1);
        }
    }
}

proof fn lemma_gaps_are_cleared_rows(g: Seq<Seq<bool>>, j: int, n: int)
    requires
        is_grid(g),
        has_no_gap(g),
        0 <= j < n <= BOARD_ROWS,
        !full_at(g, j),
        !empty_at(g, j),
    ensures
        count_below(gap_rows(cleared(g), n), j) == count_below(full_rows(g, n), j),
    decreases n,
{
    let c = cleared(g);
    if n == j + 1 {
        lemma_no_gap_below(c, n, j);
        lemma_no_full_row_below(g, n, j);
    } else {
        lemma_gaps_are_cleared_rows(g, j, n - 1);
        let m = n - 1;
        assert(c[j] =~= g[j]);
        lemma_empty_at_is_blank(c, j);
        lemma_empty_at_is_blank(g, j);
        assert(0 <= j < m && !empty_at(c, j));
        assert(occupied_above(c, m));
        assert(0 <= j < m && !empty_at(g, j));
        assert(occupied_above(g, m));
        lemma_empty_at_is_blank(c, m);
        lemma_empty_at_is_blank(g, m);
        if full_at(g, m) {
            assert(empty_at(c, m));
            let rows = gap_rows(c, m);
            assert(rows.push(m).drop_last() =~= rows);
            assert(rows.push(m).last() == m);
            let fulls = full_rows(g, m);
            assert(fulls.push(m).drop_last() =~= fulls);
            assert(fulls.push(m).last() == m);
        } else {
            assert(c[m] =~= g[m]);
            assert(!(empty_at(g, m) && occupied_above(g, m)));
            assert(!empty_at(c, m));
        }
    }
}

/// On a board without a gap, line clearing reports for every row that is
/// neither full nor empty the number of full rows below it: each row moves
/// down by as many rows as were removed below it.
pub proof fn lemma_rows_move_by_cleared_rows_below(g: Seq<Seq<bool>>, j: int)
    requires
        is_grid(g),
        has_no_gap(g),
        0 <= j < BOARD_ROWS,
        !full_at(g, j),
        !empty_at(g, j),
    ensures
        rows_moved_down(g, j) == count_below(full_rows(g, BOARD_ROWS as int), j),
{
    lemma_gaps_are_cleared_rows(g, j, BOARD_ROWS as int);
}

} // verus!
