use vstd::prelude::*;

use crate::tetromino::{lemma_shape_four_dots, shape, Block, Dot, Kind, State};

verus! {

pub const BOARD_COLS: usize = 10;

pub const BOARD_ROWS: usize = 20;

/// The edge length of one cell in world units. World coordinates are fixed
/// point: one unit here is a tenth of a display unit, so a cell is 25.0 wide.
pub const DOT_SIZE: i32 = 250;

/// The occupancy grid: `board[row][col]`, rows counted from the top, columns
/// from the left.
pub type Board = [[bool; BOARD_COLS]; BOARD_ROWS];

/// Whether the cell at `row`, `col` holds a locked dot.
pub open spec fn occupied(board: Board, row: int, col: int) -> bool {
    board[row][col]
}

/// The board as a sequence of 20 rows of 10 cells each.
pub open spec fn grid(board: Board) -> Seq<Seq<bool>> {
    Seq::new(BOARD_ROWS as nat, |r: int| Seq::new(BOARD_COLS as nat, |c: int| occupied(board, r, c)))
}

/// Whether no cell of the board is occupied.
pub open spec fn board_empty(board: Board) -> bool {
    forall|r: int, c: int| 0 <= r < BOARD_ROWS && 0 <= c < BOARD_COLS ==> !occupied(board, r, c)
}

/// The quotient of `a` by a positive `b`, rounded toward zero.
pub open spec fn trunc_div(a: int, b: int) -> int {
    if a >= 0 {
        a / b
    } else {
        -((-a) / b)
    }
}

/// The board column of world coordinate `x`: `x / DOT_SIZE + 4.5`, truncated
/// toward zero.
pub open spec fn world_col(x: int) -> int {
    trunc_div(2 * x + 9 * DOT_SIZE, 2 * DOT_SIZE)
}

/// The board row of world coordinate `y`: `9.5 - y / DOT_SIZE`, truncated
/// toward zero.
pub open spec fn world_row(y: int) -> int {
    trunc_div(19 * DOT_SIZE - 2 * y, 2 * DOT_SIZE)
}

/// Whether `col`, `row` is a cell of the board that holds no locked dot.
pub open spec fn cell_free(board: Board, col: int, row: int) -> bool {
    0 <= col < BOARD_COLS && 0 <= row < BOARD_ROWS && !occupied(board, row, col)
}

/// Whether a piece of the given type and rotation state, anchored at world
/// position `x`, `y`, has all four dots on free cells of the board.
pub open spec fn fits(board: Board, x: int, y: int, kind: Kind, state: State) -> bool {
    forall|i: int|
        0 <= i < 4 ==> cell_free(
            board,
            world_col(x) + (#[trigger] shape(kind, state)[i]).x,
            world_row(y) + shape(kind, state)[i].y,
        )
}

/// Whether all four dots of such a piece lie on cells of the board, occupied
/// or not.
pub open spec fn on_board(x: int, y: int, kind: Kind, state: State) -> bool {
    forall|i: int|
        0 <= i < 4 ==> {
            &&& 0 <= world_col(x) + (#[trigger] shape(kind, state)[i]).x < BOARD_COLS
            &&& 0 <= world_row(y) + shape(kind, state)[i].y < BOARD_ROWS
        }
}

/// Whether one of the four dots of such a piece lies on the cell at `row`,
/// `col`.
pub open spec fn covers(x: int, y: int, kind: Kind, state: State, row: int, col: int) -> bool {
    exists|i: int|
        0 <= i < 4 && world_col(x) + (#[trigger] shape(kind, state)[i]).x == col && world_row(y) + shape(
            kind,
            state,
        )[i].y == row
}

fn trunc_quot(a: i64, b: i64) -> (q: i64)
    requires
        b > 0,
        a > i64::MIN,
    ensures
        q == trunc_div(a as int, b as int),
{
    if a >= 0 {
        a / b
    } else {
        -((-a) / b)
    }
}

/// A board with no occupied cell.
pub fn empty_board() -> (board: Board)
    ensures
        board_empty(board),
{
    [[false; BOARD_COLS]; BOARD_ROWS]
}

/// The board cell that holds the world position `x`, `y`, as column and row.
/// Positions outside the board give cells outside the board.
pub fn get_object_position_in_board(x: i32, y: i32) -> (cell: (i32, i32))
    ensures
        cell.0 == world_col(x as int),
        cell.1 == world_row(y as int),
{
    let col: i64 = trunc_quot(2 * (x as i64) + 9 * (DOT_SIZE as i64), 2 * (DOT_SIZE as i64));
    let row: i64 = trunc_quot(19 * (DOT_SIZE as i64) - 2 * (y as i64), 2 * (DOT_SIZE as i64));
    (col as i32, row as i32)
}

/// The board cell of a dot with offsets `dot_x`, `dot_y` of a piece anchored
/// at world position `x`, `y`.
pub fn get_dot_position_in_board(x: i32, y: i32, dot_x: i8, dot_y: i8) -> (cell: (i32, i32))
    ensures
        cell.0 == world_col(x as int) + dot_x,
        cell.1 == world_row(y as int) + dot_y,
{
    let (board_x, board_y) = get_object_position_in_board(x, y);
    (board_x + dot_x as i32, board_y + dot_y as i32)
}

/// Collision test: whether `block`, anchored at world position `x`, `y`, lies
/// wholly on free cells of the board.
pub fn board_check_block_position(board: &Board, x: i32, y: i32, block: &Block) -> (ok: bool)
    ensures
        ok == fits(*board, x as int, y as int, block.kind_of(), block.state_of()),
{
    let dots: [Dot; 4] = block.dots_by_state();
    let mut i: usize = 0;
    while i < 4
        invariant
            0 <= i <= 4,
            dots@ == shape(block.kind_of(), block.state_of()),
            forall|j: int|
                0 <= j < i ==> cell_free(
                    *board,
                    world_col(x as int) + (#[trigger] shape(block.kind_of(), block.state_of())[j]).x,
                    world_row(y as int) + shape(block.kind_of(), block.state_of())[j].y,
                ),
        decreases 4 - i,
    {
        let (board_x, board_y) = get_dot_position_in_board(x, y, dots[i].x, dots[i].y);
        if board_x < 0 || board_x >= BOARD_COLS as i32 || board_y < 0 || board_y >= BOARD_ROWS as i32 {
            assert(!cell_free(
                *board,
                world_col(x as int) + shape(block.kind_of(), block.state_of())[i as int].x,
                world_row(y as int) + shape(block.kind_of(), block.state_of())[i as int].y,
            ));
            return false;
        }
        if board[board_y as usize][board_x as usize] {
            assert(!cell_free(
                *board,
                world_col(x as int) + shape(block.kind_of(), block.state_of())[i as int].x,
                world_row(y as int) + shape(block.kind_of(), block.state_of())[i as int].y,
            ));
            return false;
        }
        i += 1;
    }
    true
}

/// Marks the cell at column `board_x`, row `board_y` as occupied.
pub fn place_dot_on_board(board_x: i8, board_y: i8, board: &mut Board)
    requires
        0 <= board_x < BOARD_COLS,
        0 <= board_y < BOARD_ROWS,
    ensures
        forall|r: int, c: int|
            0 <= r < BOARD_ROWS && 0 <= c < BOARD_COLS ==> #[trigger] occupied(*final(board), r, c) == (
            occupied(*old(board), r, c) || (r == board_y && c == board_x)),
{
    board[board_y as usize][board_x as usize] = true;
}

/// The world origin lies in column 4, row 9; the centre of the top left cell
/// in column 0, row 0; the centre of the bottom right cell in column 9, row 19.
pub proof fn lemma_world_to_board_corners()
    ensures
        world_col(0) == 4 && world_row(0) == 9,
        world_col(-1125) == 0 && world_row(2375) == 0,
        world_col(1125) == 9 && world_row(-2375) == 19,
{
}

/// The world `x` of the centre of column `col`, where a dot of that column
/// is drawn and where a piece anchored on that column stands.
pub open spec fn cell_centre_x(col: int) -> int {
    col * DOT_SIZE - 9 * DOT_SIZE / 2
}

/// The world `y` of the centre of row `row`.
pub open spec fn cell_centre_y(row: int) -> int {
    19 * DOT_SIZE / 2 - row * DOT_SIZE
}

/// The centre of every cell maps back to that cell, on the board and off it.
pub proof fn lemma_cell_centre_round_trip(col: int, row: int)
    ensures
        world_col(cell_centre_x(col)) == col,
        world_row(cell_centre_y(row)) == row,
{
    assert(2 * cell_centre_x(col) + 9 * DOT_SIZE == col * 500);
    assert(19 * DOT_SIZE - 2 * cell_centre_y(row) == row * 500);
    assert((col * 500) / 500 == col && (-(col * 500)) / 500 == -col) by (nonlinear_arith);
    assert((row * 500) / 500 == row && (-(row * 500)) / 500 == -row) by (nonlinear_arith);
}

/// For a piece anchored on a cell centre, the cell of a dot, which is the
/// anchor's cell moved by the dot's offsets, is the cell that holds the dot's
/// own world position.
pub proof fn lemma_dot_cell_is_cell_of_dot(col: int, row: int, dot_x: int, dot_y: int)
    ensures
        world_col(cell_centre_x(col) + dot_x * DOT_SIZE) == world_col(cell_centre_x(col)) + dot_x,
        world_row(cell_centre_y(row) - dot_y * DOT_SIZE) == world_row(cell_centre_y(row)) + dot_y,
{
    lemma_cell_centre_round_trip(col, row);
    lemma_cell_centre_round_trip(col + dot_x, row + dot_y);
    assert(cell_centre_x(col) + dot_x * DOT_SIZE == cell_centre_x(col + dot_x)) by (nonlinear_arith);
    assert(cell_centre_y(row) - dot_y * DOT_SIZE == cell_centre_y(row + dot_y)) by (nonlinear_arith);
}

/// Between two cell centres the cell is found by truncation toward zero: left
/// of the board's first column, and above its first row, a position within
/// one cell of the board still maps to column 0, or row 0.
pub proof fn lemma_truncation_toward_zero(x: int, y: int)
    ensures
        cell_centre_x(-1) < x < cell_centre_x(1) ==> world_col(x) == 0,
        cell_centre_y(1) < y < cell_centre_y(-1) ==> world_row(y) == 0,
{
}

/// A piece that fits lies on the board, and no cell that it covers is
/// occupied.
pub proof fn lemma_fits_on_board(board: Board, x: int, y: int, kind: Kind, state: State)
    requires
        fits(board, x, y, kind, state),
    ensures
        on_board(x, y, kind, state),
        forall|r: int, c: int| covers(x, y, kind, state, r, c) ==> !occupied(board, r, c),
{
}

/// On an empty board a piece fits exactly if it lies on the board.
pub proof fn lemma_fits_empty_board(board: Board, x: int, y: int, kind: Kind, state: State)
    requires
        board_empty(board),
    ensures
        fits(board, x, y, kind, state) == on_board(x, y, kind, state),
{
    lemma_shape_four_dots(kind, state);
}

/// A piece that lies on the board is anchored within a few cells of it, so
/// its world position is small.
pub proof fn lemma_on_board_bounds(x: int, y: int, kind: Kind, state: State)
    requires
        on_board(x, y, kind, state),
    ensures
        -3 <= world_col(x) < BOARD_COLS,
        -3 <= world_row(y) < BOARD_ROWS,
        -10000 < x < 10000,
        -10000 < y < 10000,
{
    lemma_shape_four_dots(kind, state);
    let d = shape(kind, state)[0];
    assert(0 <= world_col(x) + d.x < BOARD_COLS);
    assert(0 <= world_row(y) + d.y < BOARD_ROWS);
}

} // verus!
