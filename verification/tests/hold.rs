use tetris::common_component::{ActiveBlock, DropType, GameData, GameState, SPAWN_X, SPAWN_Y, SPAWN_Y_I};
use tetris::drop::place_block_on_board;
use tetris::hold::hold_block_system;
use tetris::tetromino::{Block, Rotation, State};

fn game_with(block: Block) -> GameData {
    let mut game = GameData::default();
    game.active = Some(ActiveBlock { block, x: SPAWN_X, y: SPAWN_Y - 500 });
    game
}

#[test]
fn hold_resets_rotation() {
    let mut block = Block::new_t();
    Rotation::rotate_right(&mut block);
    Rotation::rotate_right(&mut block);
    assert_eq!(*block.state(), State::Two);

    block.reset_rotation();
    assert_eq!(*block.state(), State::Zero);
}

#[test]
fn hold_used_flag_prevents_double_hold() {
    let mut game_data = game_with(Block::new_t());
    assert!(!game_data.hold_used);

    game_data.hold_used = true;
    assert!(game_data.hold_used);
    assert!(!hold_block_system(&mut game_data));
    assert_eq!(game_data.held_block, None);
    assert_eq!(game_data.active.unwrap().block, Block::new_t());
}

#[test]
fn hold_swap_preserves_block_type() {
    let mut game_data = game_with(Block::new_t());
    let previously_held = game_data.held_block;
    assert!(hold_block_system(&mut game_data));

    assert!(previously_held.is_none());
    assert!(game_data.held_block.is_some());
    assert!(game_data.hold_used);
    assert_eq!(game_data.held_block, Some(Block::new_t()));
    assert!(game_data.active.is_none());
}

#[test]
fn hold_swap_returns_previous() {
    let mut game_data = game_with(Block::new_t());
    game_data.held_block = Some(Block::new_i());

    let previously_held = game_data.held_block;
    assert!(hold_block_system(&mut game_data));

    assert!(previously_held.is_some());
    match previously_held.unwrap() {
        Block::I { .. } => {}
        _ => panic!("Expected I block from hold"),
    }
    match game_data.active.unwrap().block {
        Block::I { .. } => {}
        _ => panic!("Expected I block from hold"),
    }
    match game_data.held_block.as_ref().unwrap() {
        Block::T { .. } => {}
        _ => panic!("Expected T block in hold"),
    }
    assert_eq!(game_data.active.unwrap().x, SPAWN_X);
    assert_eq!(game_data.active.unwrap().y, SPAWN_Y_I);
}

#[test]
fn hold_used_resets_on_placement() {
    let mut game_data = game_with(Block::new_o());
    game_data.hold_used = true;
    place_block_on_board(&mut game_data);
    assert!(!game_data.hold_used);
}

#[test]
fn hold_resets_both_rotations_and_discards_drop_points() {
    let mut game = game_with(Block::S { state: State::Three });
    game.held_block = Some(Block::Z { state: State::Two });
    game.soft_drop_cells = 4;
    game.hard_drop_start_y = Some(100);
    game.drop_type = DropType::Soft;
    game.score = 9;
    assert!(hold_block_system(&mut game));
    assert_eq!(game.held_block, Some(Block::new_s()));
    assert_eq!(game.active.unwrap().block, Block::new_z());
    assert_eq!((game.active.unwrap().x, game.active.unwrap().y), (SPAWN_X, SPAWN_Y));
    assert_eq!(game.soft_drop_cells, 0);
    assert_eq!(game.hard_drop_start_y, None);
    assert_eq!(game.drop_type, DropType::Normal);
    assert_eq!(game.score, 9);
}

#[test]
fn hold_is_rejected_without_a_piece_outside_play_and_in_a_hard_drop() {
    let mut game = GameData::default();
    assert!(!hold_block_system(&mut game));
    assert_eq!(game.held_block, None);
    assert!(!game.hold_used);
    let mut game = game_with(Block::new_j());
    game.state = GameState::Paused;
    assert!(!hold_block_system(&mut game));
    game.state = GameState::GameOver;
    assert!(!hold_block_system(&mut game));
    game.state = GameState::Playing;
    game.drop_type = DropType::Hard;
    assert!(!hold_block_system(&mut game));
    assert_eq!(game.held_block, None);
    assert!(game.active.is_some());
}
