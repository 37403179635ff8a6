use tetris::board::DOT_SIZE;
use tetris::common_component::{ActiveBlock, DropType, GameData, GameState, Intent};
use tetris::rotation::{block_rotation_system, get_kick_offsets};
use tetris::tetromino::{Block, State};

/// World coordinates are held in tenths of a display unit.
fn world(v: f64) -> i32 {
    (v * 10.0).round() as i32
}

#[test]
fn i_piece_has_5_kick_offsets() {
    let block = Block::new_i();
    let offsets = get_kick_offsets(&block, State::Zero, State::One);
    assert_eq!(offsets.len(), 5);
}

#[test]
fn o_piece_has_only_identity_kick() {
    let block = Block::new_o();
    let offsets = get_kick_offsets(&block, State::Zero, State::One);
    assert_eq!(offsets, vec![(0, 0)]);
}

#[test]
fn standard_piece_has_5_kick_offsets() {
    let block = Block::new_t();
    let offsets = get_kick_offsets(&block, State::Zero, State::One);
    assert_eq!(offsets.len(), 5);
}

#[test]
fn kick_offsets_first_is_identity() {
    for block in [Block::new_i(), Block::new_t(), Block::new_s(), Block::new_z(), Block::new_j(), Block::new_l()] {
        let offsets = get_kick_offsets(&block, State::Zero, State::One);
        assert_eq!(offsets[0], (0, 0), "First kick offset should be (0,0)");
    }
}

#[test]
fn kick_tables() {
    let i = Block::new_i();
    assert_eq!(get_kick_offsets(&i, State::Zero, State::One), vec![(0, 0), (-2, 0), (1, 0), (-2, -1), (1, 2)]);
    assert_eq!(get_kick_offsets(&i, State::Three, State::Zero), vec![(0, 0), (1, 0), (-2, 0), (1, -2), (-2, 1)]);
    assert_eq!(get_kick_offsets(&i, State::Zero, State::Two), vec![(0, 0)]);
    let j = Block::new_j();
    assert_eq!(get_kick_offsets(&j, State::Zero, State::One), vec![(0, 0), (-1, 0), (-1, 1), (0, -2), (-1, -2)]);
    assert_eq!(get_kick_offsets(&j, State::Two, State::Three), vec![(0, 0), (1, 0), (1, 1), (0, -2), (1, -2)]);
    assert_eq!(get_kick_offsets(&j, State::Zero, State::Three), vec![(0, 0), (1, 0), (1, 1), (0, -2), (1, -2)]);
    assert_eq!(get_kick_offsets(&j, State::One, State::One), vec![(0, 0)]);
    let o = Block::new_o();
    assert_eq!(get_kick_offsets(&o, State::Three, State::Two), vec![(0, 0)]);
}

fn game_with(block: Block, x: f64, y: f64) -> GameData {
    let mut game = GameData::default();
    game.active = Some(ActiveBlock { block, x: world(x), y: world(y) });
    game
}

#[test]
fn free_rotation_uses_the_identity_offset() {
    let mut game = game_with(Block::new_t(), -37.5, 112.5);
    assert!(block_rotation_system(&mut game, Intent::RotateCW));
    let piece = game.active.unwrap();
    assert_eq!(piece.block, Block::T { state: State::One });
    assert_eq!((piece.x, piece.y), (world(-37.5), world(112.5)));
    assert!(block_rotation_system(&mut game, Intent::RotateCCW));
    assert!(block_rotation_system(&mut game, Intent::RotateCCW));
    assert_eq!(game.active.unwrap().block, Block::T { state: State::Three });
}

#[test]
fn rotation_at_the_wall_kicks_the_piece() {
    // T in state One covers columns 1 and 2 of its box: the box may start at column -1.
    let mut game = game_with(Block::T { state: State::One }, -137.5, 112.5);
    // Turning to state Two needs column 0 of the box: the first offset that fits is (1, 0).
    assert!(block_rotation_system(&mut game, Intent::RotateCW));
    let piece = game.active.unwrap();
    assert_eq!(piece.block, Block::T { state: State::Two });
    assert_eq!((piece.x, piece.y), (world(-137.5) + DOT_SIZE, world(112.5)));
}

#[test]
fn kicks_are_tried_in_table_order() {
    // As above, but the cells that the offset (1, 0) needs are partly taken, so
    // the next offset, (1, -1), applies: one cell right and one cell down.
    let mut game = game_with(Block::T { state: State::One }, -137.5, 112.5);
    // State Two at column 0, row 5: dots (0,1), (1,1), (2,1), (1,2) cover row 6 and row 7.
    game.board_matrix[6][0] = true;
    assert!(block_rotation_system(&mut game, Intent::RotateCW));
    let piece = game.active.unwrap();
    assert_eq!(piece.block, Block::T { state: State::Two });
    assert_eq!((piece.x, piece.y), (world(-137.5) + DOT_SIZE, world(112.5) - DOT_SIZE));
}

#[test]
fn rotation_without_a_fitting_offset_is_rejected() {
    let mut game = game_with(Block::new_i(), -37.5, 112.5);
    for row in 0..20 {
        for col in 0..10 {
            game.board_matrix[row][col] = true;
        }
    }
    // Only the four cells of the piece itself are free.
    for col in 3..7 {
        game.board_matrix[6][col] = false;
    }
    let before = game;
    assert!(!block_rotation_system(&mut game, Intent::RotateCW));
    assert_eq!(game.active.unwrap().block, Block::new_i());
    assert_eq!(game.active.unwrap().x, before.active.unwrap().x);
    assert_eq!(game.active.unwrap().y, before.active.unwrap().y);
    assert_eq!(game.board_matrix, before.board_matrix);
}

#[test]
fn o_piece_turns_in_place() {
    let mut game = game_with(Block::new_o(), -37.5, 112.5);
    assert!(block_rotation_system(&mut game, Intent::RotateCW));
    let piece = game.active.unwrap();
    assert_eq!(piece.block, Block::O { state: State::One });
    assert_eq!((piece.x, piece.y), (world(-37.5), world(112.5)));
}

#[test]
fn rotation_counts_against_the_lock_delay() {
    let mut game = game_with(Block::new_t(), -37.5, 112.5);
    game.lock_delay_active = true;
    game.lock_move_count = 13;
    game.lock_delay_timer.elapsed = 250_000;
    assert!(block_rotation_system(&mut game, Intent::RotateCW));
    assert_eq!(game.lock_move_count, 14);
    assert_eq!(game.lock_delay_timer.elapsed, 0);
    game.lock_delay_timer.elapsed = 250_000;
    assert!(block_rotation_system(&mut game, Intent::RotateCW));
    assert_eq!(game.lock_move_count, 15);
    assert_eq!(game.lock_delay_timer.elapsed, 250_000);
}

#[test]
fn rotation_is_ignored_outside_play_in_a_hard_drop_and_for_other_intents() {
    let mut game = game_with(Block::new_t(), -37.5, 112.5);
    assert!(!block_rotation_system(&mut game, Intent::MoveLeft));
    game.drop_type = DropType::Hard;
    assert!(!block_rotation_system(&mut game, Intent::RotateCW));
    game.drop_type = DropType::Normal;
    game.state = GameState::Paused;
    assert!(!block_rotation_system(&mut game, Intent::RotateCW));
    assert_eq!(game.active.unwrap().block, Block::new_t());
    let mut empty = GameData::default();
    assert!(!block_rotation_system(&mut empty, Intent::RotateCW));
}
