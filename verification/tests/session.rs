use tetris::board::{BOARD_COLS, BOARD_ROWS};
use tetris::common_component::{DropType, GameData, GameState, SPAWN_X, SPAWN_Y, SPAWN_Y_I};
use tetris::drop::block_drop_system;
use tetris::game_state::{pause_system, restart_system};
use tetris::line_clear::eliminate_line_system;
use tetris::spawn_block_system::{spawn_block, spawn_block_system, spawn_position, Randomizer7Bag};
use tetris::tetromino::{Block, Kind, State};
use tetris::timer::Timer;

fn kinds(blocks: &[Block]) -> Vec<Kind> {
    blocks.iter().map(|b| b.kind()).collect()
}

fn is_one_of_each(blocks: &[Block]) -> bool {
    let all = [Kind::I, Kind::O, Kind::T, Kind::S, Kind::Z, Kind::J, Kind::L];
    blocks.len() == 7
        && all.iter().all(|k| kinds(blocks).iter().filter(|x| *x == k).count() == 1)
        && blocks.iter().all(|b| *b.state() == State::Zero)
}

#[test]
fn new_randomizer_holds_two_full_bags() {
    let randomizer = Randomizer7Bag::default();
    assert_eq!(randomizer.len(), 14);
    let queue = randomizer.peek(14);
    assert!(is_one_of_each(&queue[..7]));
    assert!(is_one_of_each(&queue[7..]));
}

#[test]
fn seven_pops_from_a_new_randomizer_hold_each_type_once() {
    for _ in 0..20 {
        let mut randomizer = Randomizer7Bag::default();
        for _ in 0..5 {
            let mut popped = Vec::new();
            for _ in 0..7 {
                popped.push(randomizer.pop_next());
            }
            assert!(is_one_of_each(&popped));
        }
    }
}

#[test]
fn pop_takes_the_front_and_refills_below_seven() {
    let mut randomizer = Randomizer7Bag::default();
    let queue = randomizer.peek(14);
    for i in 0..7 {
        assert_eq!(randomizer.len(), 14 - i);
        assert_eq!(randomizer.pop_next(), queue[i]);
    }
    assert_eq!(randomizer.len(), 7);
    assert_eq!(randomizer.peek(7), queue[7..].to_vec());
    assert_eq!(randomizer.pop_next(), queue[7]);
    assert_eq!(randomizer.len(), 13);
    assert_eq!(randomizer.peek(6), queue[8..].to_vec());
    assert!(is_one_of_each(&randomizer.peek(13)[6..]));
}

#[test]
fn peek_does_not_take() {
    let randomizer = Randomizer7Bag::default();
    let three = randomizer.peek(3);
    assert_eq!(three.len(), 3);
    assert_eq!(randomizer.peek(3), three);
    assert_eq!(randomizer.peek(0), Vec::<Block>::new());
    assert_eq!(randomizer.peek(100).len(), 14);
    assert_eq!(randomizer.peek(100)[..3].to_vec(), three);
    assert_eq!(randomizer.len(), 14);
}

#[test]
fn bags_are_shuffled() {
    // In catalog order every bag would start with the same piece and run the
    // same way: over forty bags that does not happen.
    let catalog = vec![Kind::I, Kind::O, Kind::T, Kind::S, Kind::Z, Kind::J, Kind::L];
    let mut in_catalog_order = 0;
    for _ in 0..20 {
        let queue = Randomizer7Bag::default().peek(14);
        if kinds(&queue[..7]) == catalog {
            in_catalog_order += 1;
        }
        if kinds(&queue[7..]) == catalog {
            in_catalog_order += 1;
        }
    }
    assert!(in_catalog_order < 40);
}

#[test]
fn init_starts_the_queue_over() {
    let mut randomizer = Randomizer7Bag::default();
    for _ in 0..10 {
        randomizer.pop_next();
    }
    assert_eq!(randomizer.len(), 11);
    randomizer.init();
    assert_eq!(randomizer.len(), 14);
    let queue = randomizer.peek(14);
    assert!(is_one_of_each(&queue[..7]));
    assert!(is_one_of_each(&queue[7..]));
}

#[test]
fn spawn_positions() {
    assert_eq!(spawn_position(&Block::new_i()), (SPAWN_X, SPAWN_Y_I));
    assert_eq!(spawn_position(&Block::new_t()), (SPAWN_X, SPAWN_Y));
    assert_eq!((SPAWN_X, SPAWN_Y, SPAWN_Y_I), (-375, 2375, 2625));
}

#[test]
fn spawn_puts_the_piece_in_play() {
    let mut game = GameData::default();
    game.drop_type = DropType::Soft;
    game.drop_timer.elapsed = 5;
    spawn_block(&mut game, Block::new_t());
    let piece = game.active.unwrap();
    assert_eq!(piece.block, Block::new_t());
    assert_eq!((piece.x, piece.y), (SPAWN_X, SPAWN_Y));
    assert_eq!(game.state, GameState::Playing);
    assert_eq!(game.drop_type, DropType::Normal);
    assert_eq!(game.drop_timer.elapsed, 0);
}

#[test]
fn spawn_collision_ends_the_game() {
    let mut game = GameData::default();
    game.board_matrix[1][4] = true;
    spawn_block(&mut game, Block::new_t());
    assert!(game.active.is_none());
    assert_eq!(game.state, GameState::GameOver);
    // The I piece lies in row 0 only and still fits.
    let mut game = GameData::default();
    game.board_matrix[1][4] = true;
    spawn_block(&mut game, Block::new_i());
    assert!(game.active.is_some());
    assert_eq!(game.state, GameState::Playing);
}

#[test]
fn spawn_system_takes_the_next_piece_only_when_none_is_in_play() {
    let mut game = GameData::default();
    let mut randomizer = Randomizer7Bag::default();
    let next = randomizer.peek(2);
    assert!(spawn_block_system(&mut game, &mut randomizer));
    assert_eq!(game.active.unwrap().block, next[0]);
    assert_eq!(randomizer.len(), 13);
    assert!(!spawn_block_system(&mut game, &mut randomizer));
    assert_eq!(randomizer.len(), 13);
    game.active = None;
    game.state = GameState::Paused;
    assert!(!spawn_block_system(&mut game, &mut randomizer));
    game.state = GameState::Playing;
    assert!(spawn_block_system(&mut game, &mut randomizer));
    assert_eq!(game.active.unwrap().block, next[1]);
}

#[test]
fn pause_toggles_and_keeps_the_timers() {
    let mut game = GameData::default();
    game.drop_timer.elapsed = 333;
    pause_system(&mut game);
    assert_eq!(game.state, GameState::Paused);
    assert_eq!(game.drop_timer.elapsed, 333);
    pause_system(&mut game);
    assert_eq!(game.state, GameState::Playing);
    assert_eq!(game.drop_timer.elapsed, 333);
    game.state = GameState::GameOver;
    pause_system(&mut game);
    assert_eq!(game.state, GameState::GameOver);
}

#[test]
fn restart_resets_a_finished_session() {
    let mut game = GameData::default();
    let mut randomizer = Randomizer7Bag::default();
    randomizer.pop_next();
    game.score = 1234;
    game.lines_cleared = 25;
    game.level = 3;
    game.board_matrix[19] = [true; BOARD_COLS];
    game.held_block = Some(Block::new_z());
    game.hold_used = true;
    assert!(!restart_system(&mut game, &mut randomizer));
    assert_eq!(game.score, 1234);
    assert_eq!(randomizer.len(), 13);
    game.state = GameState::GameOver;
    assert!(restart_system(&mut game, &mut randomizer));
    assert_eq!(game.state, GameState::Playing);
    assert_eq!(game.score, 0);
    assert_eq!(game.lines_cleared, 0);
    assert_eq!(game.level, 1);
    assert_eq!(game.board_matrix, [[false; BOARD_COLS]; BOARD_ROWS]);
    assert_eq!(game.held_block, None);
    assert!(!game.hold_used);
    assert!(game.active.is_none());
    assert_eq!(game.drop_timer, Timer { elapsed: 0, interval: 1_000_000, one_shot: false, finished: false });
    assert_eq!(randomizer.len(), 14);
}

#[test]
fn initial_session() {
    let game = GameData::default();
    assert_eq!(game.board_matrix, [[false; BOARD_COLS]; BOARD_ROWS]);
    assert_eq!(game.drop_timer.interval, 1_000_000);
    assert_eq!(game.soft_drop_timer.interval, 50_000);
    assert_eq!(game.hard_drop_timer.interval, 10_000);
    assert_eq!(game.lock_delay_timer.interval, 500_000);
    assert!(game.lock_delay_timer.one_shot);
    assert_eq!(game.keyboard_timer.interval, 100_000);
    assert_eq!((game.score, game.lines_cleared, game.level), (0, 0, 1));
    assert_eq!(game.state, GameState::Playing);
    assert_eq!(game.drop_type, DropType::Normal);
}

#[test]
fn timers() {
    let mut t = Timer::repeating(100);
    assert!(!t.tick(99));
    assert_eq!(t.elapsed, 99);
    assert!(t.tick(1));
    assert_eq!(t.elapsed, 0);
    assert!(t.tick(250));
    assert_eq!(t.elapsed, 50);
    assert!(!t.tick(0));
    assert!(!t.finished);
    t.set_duration(40);
    assert_eq!((t.elapsed, t.interval), (50, 40));
    assert!(t.tick(0));
    assert_eq!(t.elapsed, 10);
    t.reset();
    assert_eq!((t.elapsed, t.finished), (0, false));
    assert!(t.tick(u64::MAX));
    assert_eq!(t.elapsed, u64::MAX % 40);
    let mut once = Timer::once(100);
    assert!(!once.tick(60));
    assert!(once.tick(60));
    assert_eq!(once.elapsed, 100);
    assert!(once.tick(5));
    assert_eq!(once.elapsed, 100);
    once.reset();
    assert!(!once.tick(5));
    let mut zero = Timer::repeating(0);
    assert!(zero.tick(0));
    assert_eq!(zero.elapsed, 0);
}

#[test]
fn a_row_of_pieces_is_cleared_in_the_step_that_locks_the_last() {
    let mut game = GameData::default();
    // Rows 18 and 19 are full but for columns 4 and 5, where an O piece lands.
    for row in 18..20 {
        for col in 0..BOARD_COLS {
            game.board_matrix[row][col] = col != 4 && col != 5;
        }
    }
    game.board_matrix[17][0] = true;
    spawn_block(&mut game, Block::new_o());
    let mut ticks = 0;
    loop {
        let locked = block_drop_system(&mut game, 1_000_000);
        let moves = eliminate_line_system(&mut game);
        if locked {
            assert_eq!(moves[17], 2);
            break;
        }
        assert_eq!(moves, vec![0u8; BOARD_ROWS]);
        ticks += 1;
        assert!(ticks < 100);
    }
    assert_eq!(game.score, 300);
    assert_eq!(game.lines_cleared, 2);
    let mut last = [false; BOARD_COLS];
    last[0] = true;
    assert_eq!(game.board_matrix[19], last);
    for row in 0..19 {
        assert_eq!(game.board_matrix[row], [false; BOARD_COLS]);
    }
}

#[test]
fn validity_check() {
    let mut game = GameData::default();
    assert!(game.is_valid());
    spawn_block(&mut game, Block::new_i());
    assert!(game.is_valid());
    let mut off = game;
    off.active.as_mut().unwrap().x = -5000;
    assert!(!off.is_valid());
    let mut wrong_level = game;
    wrong_level.level = 2;
    assert!(!wrong_level.is_valid());
    wrong_level.lines_cleared = 19;
    assert!(wrong_level.is_valid());
}

#[test]
fn drop_type_starts_as_normal() {
    assert_eq!(DropType::default(), DropType::Normal);
}
