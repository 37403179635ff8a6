use tetris::board::{
    board_check_block_position, empty_board, get_dot_position_in_board, get_object_position_in_board,
    place_dot_on_board, BOARD_COLS, BOARD_ROWS, DOT_SIZE,
};
use tetris::tetromino::Block;

/// World coordinates are held in tenths of a display unit.
fn world(v: f64) -> i32 {
    (v * 10.0).round() as i32
}

#[test]
fn object_position_center() {
    let (bx, by) = get_object_position_in_board(world(0.0), world(0.0));
    assert_eq!(bx, 4);
    assert_eq!(by, 9);
}

#[test]
fn object_position_top_left() {
    let (bx, by) = get_object_position_in_board(world(-112.5), world(237.5));
    assert_eq!(bx, 0);
    assert_eq!(by, 0);
}

#[test]
fn object_position_bottom_right() {
    let (bx, by) = get_object_position_in_board(world(112.5), world(-237.5));
    assert_eq!(bx, 9);
    assert_eq!(by, 19);
}

#[test]
fn dot_position_adds_offset() {
    let (bx, by) = get_dot_position_in_board(world(0.0), world(0.0), 2, 3);
    let (base_x, base_y) = get_object_position_in_board(world(0.0), world(0.0));
    assert_eq!(bx, base_x + 2);
    assert_eq!(by, base_y + 3);
}

#[test]
fn check_block_position_empty_board_valid() {
    let board = [[false; BOARD_COLS]; BOARD_ROWS];
    let block = Block::new_t();
    assert!(board_check_block_position(&board, world(-37.5), world(237.5), &block));
}

#[test]
fn check_block_position_out_of_bounds() {
    let board = [[false; BOARD_COLS]; BOARD_ROWS];
    let block = Block::new_i();
    assert!(!board_check_block_position(&board, world(-500.0), world(0.0), &block));
}

#[test]
fn check_block_position_collision() {
    let mut board = [[false; BOARD_COLS]; BOARD_ROWS];
    board[19] = [true; BOARD_COLS];
    let block = Block::new_o();
    assert!(!board_check_block_position(&board, world(-37.5), world(-237.5), &block));
}

#[test]
fn place_dot_sets_cell() {
    let mut board = [[false; BOARD_COLS]; BOARD_ROWS];
    place_dot_on_board(3, 5, &mut board);
    assert_eq!(board[5][3], true);
}

#[test]
fn place_dot_leaves_other_cells() {
    let mut board = empty_board();
    place_dot_on_board(3, 5, &mut board);
    for row in 0..BOARD_ROWS {
        for col in 0..BOARD_COLS {
            assert_eq!(board[row][col], row == 5 && col == 3);
        }
    }
}

#[test]
fn dot_size_is_one_cell() {
    assert_eq!(DOT_SIZE, world(25.0));
    let (left, _) = get_object_position_in_board(world(-112.5), 0);
    let (next, _) = get_object_position_in_board(world(-112.5) + DOT_SIZE, 0);
    assert_eq!(next, left + 1);
}

#[test]
fn position_truncates_toward_zero() {
    // x / 25 + 4.5 = -0.5 truncates to 0, where a floor would give -1.
    assert_eq!(get_object_position_in_board(world(-125.0), 0).0, 0);
    // -1.5 truncates to -1.
    assert_eq!(get_object_position_in_board(world(-150.0), 0).0, -1);
    // 9.5 - y / 25 = -0.5 truncates to 0.
    assert_eq!(get_object_position_in_board(0, world(250.0)).1, 0);
    // 4.9 truncates to 4.
    assert_eq!(get_object_position_in_board(world(10.0), 0).0, 4);
    // Far off the board the cell is far off too: nothing saturates.
    assert_eq!(get_object_position_in_board(world(-500.0), 0).0, -15);
    assert_eq!(get_object_position_in_board(i32::MAX, i32::MIN), (8589939, 8589944));
}

#[test]
fn every_cell_centre_maps_to_its_cell() {
    for col in 0..10 {
        for row in 0..20 {
            let x = world(-112.5) + col * DOT_SIZE;
            let y = world(237.5) - row * DOT_SIZE;
            assert_eq!(get_object_position_in_board(x, y), (col, row));
        }
    }
}

#[test]
fn o_piece_collides_with_filled_bottom_row() {
    let mut board = empty_board();
    board[19] = [true; BOARD_COLS];
    let block = Block::new_o();
    // Anchored on row 18 the piece covers rows 18 and 19.
    assert!(!board_check_block_position(&board, world(-37.5), world(-212.5), &block));
    // One row up it is clear of the filled row.
    assert!(board_check_block_position(&board, world(-37.5), world(-187.5), &block));
}
