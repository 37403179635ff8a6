use tetris::board::{board_check_block_position, BOARD_COLS, BOARD_ROWS, DOT_SIZE};
use tetris::common_component::{ActiveBlock, DropType, GameData, GameState, Intent};
use tetris::ghost::ghost_position;
use tetris::movement::block_movement_system;
use tetris::tetromino::Block;

/// World coordinates are held in tenths of a display unit.
fn world(v: f64) -> i32 {
    (v * 10.0).round() as i32
}

#[test]
fn move_left_blocked_at_wall() {
    let board = [[false; BOARD_COLS]; BOARD_ROWS];
    let block = Block::new_t();
    let at_left_wall_x = world(-112.5);
    assert!(!board_check_block_position(&board, at_left_wall_x - DOT_SIZE, world(200.0), &block));
}

#[test]
fn move_right_blocked_at_wall() {
    let board = [[false; BOARD_COLS]; BOARD_ROWS];
    let block = Block::new_t();
    let at_right_wall_x = world(87.5);
    assert!(!board_check_block_position(&board, at_right_wall_x + DOT_SIZE, world(200.0), &block));
}

#[test]
fn move_blocked_by_placed_piece() {
    let mut board = [[false; BOARD_COLS]; BOARD_ROWS];
    for row in 0..BOARD_ROWS {
        board[row][5] = true;
    }
    let block = Block::new_o();
    assert!(!board_check_block_position(&board, world(-37.5), world(200.0), &block));
}

fn game_with(block: Block, x: f64, y: f64) -> GameData {
    let mut game = GameData::default();
    game.active = Some(ActiveBlock { block, x: world(x), y: world(y) });
    game
}

#[test]
fn moves_go_one_cell_and_stop_at_the_walls() {
    let mut game = game_with(Block::new_t(), -37.5, 212.5);
    let mut lefts = 0;
    while block_movement_system(&mut game, Intent::MoveLeft) {
        lefts += 1;
    }
    assert_eq!(lefts, 3);
    assert_eq!(game.active.unwrap().x, world(-112.5));
    let mut rights = 0;
    while block_movement_system(&mut game, Intent::MoveRight) {
        rights += 1;
    }
    assert_eq!(rights, 7);
    assert_eq!(game.active.unwrap().x, world(62.5));
    assert_eq!(game.active.unwrap().y, world(212.5));
}

#[test]
fn move_into_a_locked_cell_is_rejected() {
    let mut game = game_with(Block::new_o(), -37.5, 212.5);
    game.board_matrix[1][6] = true;
    assert!(!block_movement_system(&mut game, Intent::MoveRight));
    assert_eq!(game.active.unwrap().x, world(-37.5));
    assert!(block_movement_system(&mut game, Intent::MoveLeft));
}

#[test]
fn moves_are_ignored_outside_play_in_a_hard_drop_and_for_other_intents() {
    let mut game = game_with(Block::new_o(), -37.5, 212.5);
    assert!(!block_movement_system(&mut game, Intent::RotateCW));
    assert!(!block_movement_system(&mut game, Intent::Hold));
    game.drop_type = DropType::Hard;
    assert!(!block_movement_system(&mut game, Intent::MoveLeft));
    game.drop_type = DropType::Soft;
    game.state = GameState::Paused;
    assert!(!block_movement_system(&mut game, Intent::MoveLeft));
    game.state = GameState::GameOver;
    assert!(!block_movement_system(&mut game, Intent::MoveLeft));
    assert_eq!(game.active.unwrap().x, world(-37.5));
    game.state = GameState::Playing;
    assert!(block_movement_system(&mut game, Intent::MoveLeft));
}

#[test]
fn moves_restart_the_lock_delay_fourteen_times() {
    let mut game = game_with(Block::new_o(), -37.5, -212.5);
    game.lock_delay_active = true;
    for n in 1..=20u32 {
        game.lock_delay_timer.elapsed = 300_000;
        let intent = if n % 2 == 0 { Intent::MoveLeft } else { Intent::MoveRight };
        assert!(block_movement_system(&mut game, intent));
        assert_eq!(game.lock_move_count, n);
        if n < 15 {
            assert_eq!(game.lock_delay_timer.elapsed, 0);
        } else {
            assert_eq!(game.lock_delay_timer.elapsed, 300_000);
        }
    }
    // Without an active lock delay nothing is counted.
    let mut game = game_with(Block::new_o(), -37.5, 0.0);
    game.lock_delay_timer.elapsed = 300_000;
    assert!(block_movement_system(&mut game, Intent::MoveLeft));
    assert_eq!(game.lock_move_count, 0);
    assert_eq!(game.lock_delay_timer.elapsed, 300_000);
}

#[test]
fn ghost_rests_on_the_floor_or_on_the_stack() {
    let mut board = [[false; BOARD_COLS]; BOARD_ROWS];
    let piece = ActiveBlock { block: Block::new_o(), x: world(-37.5), y: world(237.5) };
    assert_eq!(ghost_position(&board, &piece), world(-212.5));
    board[10][5] = true;
    assert_eq!(ghost_position(&board, &piece), world(237.5) - 8 * DOT_SIZE);
    let resting = ActiveBlock { block: Block::new_o(), x: world(-37.5), y: world(237.5) - 8 * DOT_SIZE };
    assert_eq!(ghost_position(&board, &resting), resting.y);
    // A piece off the board has its ghost where it is.
    let off = ActiveBlock { block: Block::new_o(), x: world(-500.0), y: world(237.5) };
    assert_eq!(ghost_position(&board, &off), off.y);
    let low = ActiveBlock { block: Block::new_o(), x: 0, y: i32::MIN };
    assert_eq!(ghost_position(&board, &low), i32::MIN);
}
