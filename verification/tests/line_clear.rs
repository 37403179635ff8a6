use tetris::board::{BOARD_COLS, BOARD_ROWS};
use tetris::common_component::{GameData, GameState};
use tetris::line_clear::{
    eliminate_line_inner, eliminate_line_system, full_lines, gap_lines, line_clear_points, row_is_empty,
    row_is_full,
};

#[test]
fn scoring_single_line() {
    assert_eq!(line_clear_points(1), 100);
}

#[test]
fn scoring_double() {
    assert_eq!(line_clear_points(2), 300);
}

#[test]
fn scoring_triple() {
    assert_eq!(line_clear_points(3), 500);
}

#[test]
fn scoring_tetris() {
    assert_eq!(line_clear_points(4), 800);
}

#[test]
fn scoring_zero_lines() {
    assert_eq!(line_clear_points(0), 0);
}

#[test]
fn scoring_more_than_four_lines() {
    assert_eq!(line_clear_points(5), 0);
    assert_eq!(line_clear_points(usize::MAX), 0);
}

#[test]
fn eliminate_inner_shifts_line_down() {
    let mut board = [[false; BOARD_COLS]; BOARD_ROWS];
    board[17] = [true; BOARD_COLS];
    eliminate_line_inner(&mut board, 18);
    assert_eq!(board[18], [true; BOARD_COLS]);
    assert_eq!(board[17], [false; BOARD_COLS]);
}

#[test]
fn eliminate_inner_shifts_multiple_lines() {
    let mut board = [[false; BOARD_COLS]; BOARD_ROWS];
    board[16] = [true; BOARD_COLS];
    board[17] = [true; BOARD_COLS];
    eliminate_line_inner(&mut board, 18);
    assert_eq!(board[18], [true; BOARD_COLS]);
    assert_eq!(board[17], [true; BOARD_COLS]);
    assert_eq!(board[16], [false; BOARD_COLS]);
}

#[test]
fn eliminate_inner_stops_at_empty_row() {
    let mut board = [[false; BOARD_COLS]; BOARD_ROWS];
    board[18] = [true; BOARD_COLS];
    board[16] = [true; BOARD_COLS];
    eliminate_line_inner(&mut board, 19);
    assert_eq!(board[19], [true; BOARD_COLS]);
    assert_eq!(board[18], [false; BOARD_COLS]);
    assert_eq!(board[16], [true; BOARD_COLS]);
}

#[test]
fn line_detection_finds_full_rows() {
    let mut board = [[false; BOARD_COLS]; BOARD_ROWS];
    board[19] = [true; BOARD_COLS];
    board[18] = [true; BOARD_COLS];
    board[17] = [true, true, true, false, false, false, false, false, false, false];

    let full_lines: Vec<usize> = full_lines(&board);

    assert_eq!(full_lines, vec![18, 19]);
}

#[test]
fn eliminate_inner_reaches_the_top() {
    let mut board = [[false; BOARD_COLS]; BOARD_ROWS];
    board[0][2] = true;
    board[1][3] = true;
    eliminate_line_inner(&mut board, 2);
    assert_eq!(board[0], [false; BOARD_COLS]);
    assert!(board[1][2] && !board[1][3]);
    assert!(board[2][3] && !board[2][2]);
}

#[test]
fn eliminate_inner_with_empty_row_above_changes_nothing() {
    let mut board = [[false; BOARD_COLS]; BOARD_ROWS];
    board[10][4] = true;
    board[12][4] = true;
    let before = board;
    eliminate_line_inner(&mut board, 12);
    assert_eq!(board, before);
}

#[test]
fn row_tests() {
    let mut board = [[false; BOARD_COLS]; BOARD_ROWS];
    board[3] = [true; BOARD_COLS];
    board[4][9] = true;
    assert!(row_is_full(&board, 3) && !row_is_empty(&board, 3));
    assert!(!row_is_full(&board, 4) && !row_is_empty(&board, 4));
    assert!(!row_is_full(&board, 5) && row_is_empty(&board, 5));
}

#[test]
fn gaps_are_the_empty_rows_below_the_first_occupied_one() {
    let mut board = [[false; BOARD_COLS]; BOARD_ROWS];
    assert_eq!(gap_lines(&board), Vec::<usize>::new());
    board[5][0] = true;
    board[8][0] = true;
    assert_eq!(gap_lines(&board), vec![6, 7, 9, 10, 11, 12, 13, 14, 15, 16, 17, 18, 19]);
}

fn game_with_rows(rows: &[(usize, [bool; BOARD_COLS])]) -> GameData {
    let mut game = GameData::default();
    for (r, cells) in rows {
        game.board_matrix[*r] = *cells;
    }
    game
}

const PART_A: [bool; BOARD_COLS] = [true, false, false, false, false, false, false, false, false, false];
const PART_B: [bool; BOARD_COLS] = [false, true, true, false, false, false, false, false, false, false];

#[test]
fn clearing_one_line_compacts_and_scores() {
    let mut game = game_with_rows(&[(17, PART_A), (18, PART_B), (19, [true; BOARD_COLS])]);
    let moves = eliminate_line_system(&mut game);
    assert_eq!(game.board_matrix[19], PART_B);
    assert_eq!(game.board_matrix[18], PART_A);
    assert_eq!(game.board_matrix[17], [false; BOARD_COLS]);
    assert_eq!(game.score, 100);
    assert_eq!(game.lines_cleared, 1);
    assert_eq!(game.level, 1);
    let mut expected = vec![1u8; BOARD_ROWS];
    expected[19] = 0;
    assert_eq!(moves, expected);
}

#[test]
fn clearing_separated_lines_keeps_the_order_of_the_rest() {
    let mut game = game_with_rows(&[
        (15, PART_A),
        (16, [true; BOARD_COLS]),
        (17, PART_B),
        (18, [true; BOARD_COLS]),
        (19, [true; BOARD_COLS]),
    ]);
    game.level = 3;
    game.score = 7;
    let moves = eliminate_line_system(&mut game);
    assert_eq!(game.board_matrix[19], PART_B);
    assert_eq!(game.board_matrix[18], PART_A);
    for r in 0..18 {
        assert_eq!(game.board_matrix[r], [false; BOARD_COLS]);
    }
    assert_eq!(game.score, 7 + 500 * 3);
    assert_eq!(game.lines_cleared, 3);
    assert_eq!(game.level, 1);
    assert_eq!(moves[15], 3);
    assert_eq!(moves[16], 0);
    assert_eq!(moves[17], 2);
    assert_eq!(moves[18], 0);
    assert_eq!(moves[19], 0);
    assert_eq!(moves[0], 3);
}

#[test]
fn tetris_at_level_two_scores_1600() {
    let mut game = game_with_rows(&[
        (16, [true; BOARD_COLS]),
        (17, [true; BOARD_COLS]),
        (18, [true; BOARD_COLS]),
        (19, [true; BOARD_COLS]),
    ]);
    game.level = 2;
    game.lines_cleared = 17;
    eliminate_line_system(&mut game);
    assert_eq!(game.score, 1600);
    assert_eq!(game.lines_cleared, 21);
    assert_eq!(game.level, 3);
    assert_eq!(game.drop_timer.interval, 617_796);
    assert_eq!(game.board_matrix, [[false; BOARD_COLS]; BOARD_ROWS]);
}

#[test]
fn new_level_changes_the_interval_and_keeps_the_progress() {
    let mut game = game_with_rows(&[(19, [true; BOARD_COLS])]);
    game.lines_cleared = 9;
    game.drop_timer.elapsed = 123_456;
    eliminate_line_system(&mut game);
    assert_eq!(game.level, 2);
    assert_eq!(game.drop_timer.interval, 793_000);
    assert_eq!(game.drop_timer.elapsed, 123_456);
}

#[test]
fn no_full_row_means_no_change() {
    let mut game = game_with_rows(&[(10, PART_A), (15, PART_B)]);
    let before = game;
    let moves = eliminate_line_system(&mut game);
    assert_eq!(game.board_matrix, before.board_matrix);
    assert_eq!(game.score, 0);
    assert_eq!(game.lines_cleared, 0);
    assert_eq!(moves, vec![0u8; BOARD_ROWS]);
}

#[test]
fn line_clearing_is_suspended_outside_play() {
    let mut game = game_with_rows(&[(19, [true; BOARD_COLS])]);
    game.state = GameState::Paused;
    let moves = eliminate_line_system(&mut game);
    assert_eq!(game.board_matrix[19], [true; BOARD_COLS]);
    assert_eq!(game.score, 0);
    assert_eq!(moves, vec![0u8; BOARD_ROWS]);
}

#[test]
fn score_and_lines_stop_at_the_largest_value() {
    let mut game = game_with_rows(&[(19, [true; BOARD_COLS])]);
    game.score = u32::MAX - 50;
    game.lines_cleared = u32::MAX;
    eliminate_line_system(&mut game);
    assert_eq!(game.score, u32::MAX);
    assert_eq!(game.lines_cleared, u32::MAX);
    assert_eq!(game.level, u32::MAX / 10 + 1);
    assert_eq!(game.drop_timer.interval, 50_000);
}
