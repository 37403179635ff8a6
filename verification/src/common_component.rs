use vstd::prelude::*;

use crate::board::{
    board_check_block_position, board_empty, covers, empty_board, fits, get_dot_position_in_board,
    lemma_fits_empty_board, on_board, world_col, world_row, Board,
};
use crate::tetromino::{Block, Dot};
use crate::timer::Timer;

verus! {

/// Interval of the key repeat timer, in microseconds.
pub const TIMER_KEYBOARD_MICROS: u64 = 100_000;

/// Interval between two gravity steps at level 1, in microseconds.
pub const TIMER_DROP_MICROS: u64 = 1_000_000;

/// Interval between two steps of a soft drop, in microseconds.
pub const TIMER_SOFT_DROP_MICROS: u64 = 50_000;

/// Interval between two steps of a hard drop, in microseconds.
pub const TIMER_HARD_DROP_MICROS: u64 = 10_000;

/// Length of the lock delay, in microseconds.
pub const LOCK_DELAY_MICROS: u64 = 500_000;

/// How many moves or rotations may restart the lock delay of one piece.
pub const MAX_LOCK_RESETS: u32 = 15;

/// World `x` at which every piece is spawned.
pub const SPAWN_X: i32 = -375;

/// World `y` at which every piece but the I piece is spawned.
pub const SPAWN_Y: i32 = 2375;

/// World `y` at which the I piece is spawned.
pub const SPAWN_Y_I: i32 = 2625;

/// The drop modes of the active piece.
#[derive(Clone, Copy, Debug, PartialEq, Eq, Structural, Hash)]
pub enum DropType {
    Normal,
    Soft,
    Hard,
}

impl Default for DropType {
    fn default() -> (drop_type: Self)
        ensures
            drop_type == DropType::Normal,
    {
        DropType::Normal
    }
}

/// The lifecycle states of a session.
#[derive(Clone, Copy, Debug, PartialEq, Eq, Structural, Hash)]
pub enum GameState {
    Playing,
    Paused,
    GameOver,
}

/// What a player can ask for.
#[derive(Clone, Copy, Debug, PartialEq, Eq, Structural)]
pub enum Intent {
    MoveLeft,
    MoveRight,
    RotateCW,
    RotateCCW,
    SoftDropStart,
    SoftDropEnd,
    HardDrop,
    Hold,
    Pause,
    Restart,
}

/// The piece in play: the piece and the world position of its anchor.
#[derive(Clone, Copy, Debug, PartialEq, Eq, Structural)]
pub struct ActiveBlock {
    pub block: Block,
    pub x: i32,
    pub y: i32,
}

/// One dot of the piece in play, by the board cell it lies on.
#[derive(Clone, Copy, Debug, PartialEq, Eq, Structural)]
pub struct ActiveDot {
    pub board_x: i32,
    pub board_y: i32,
}

/// The state of one session.
#[derive(Clone, Copy, Debug)]
pub struct GameData {
    pub board_matrix: Board,
    pub keyboard_timer: Timer,
    pub drop_timer: Timer,
    pub soft_drop_timer: Timer,
    pub hard_drop_timer: Timer,
    pub lock_delay_timer: Timer,
    pub lock_delay_active: bool,
    pub lock_move_count: u32,
    pub score: u32,
    pub lines_cleared: u32,
    pub level: u32,
    pub held_block: Option<Block>,
    pub hold_used: bool,
    pub soft_drop_cells: u32,
    pub hard_drop_start_y: Option<i32>,
    pub active: Option<ActiveBlock>,
    pub drop_type: DropType,
    pub state: GameState,
}

impl ActiveBlock {
    /// Whether the piece lies wholly on free cells of `board`.
    pub open spec fn fits_on(self, board: Board) -> bool {
        fits(board, self.x as int, self.y as int, self.block.kind_of(), self.block.state_of())
    }

    /// Whether the piece lies wholly on cells of the board.
    pub open spec fn is_on_board(self) -> bool {
        on_board(self.x as int, self.y as int, self.block.kind_of(), self.block.state_of())
    }

    /// Whether one of the piece's dots lies on the cell at `row`, `col`.
    pub open spec fn covers_cell(self, row: int, col: int) -> bool {
        covers(self.x as int, self.y as int, self.block.kind_of(), self.block.state_of(), row, col)
    }

    /// The piece moved by `dx`, `dy` in world units.
    pub open spec fn moved(self, dx: int, dy: int) -> ActiveBlock {
        ActiveBlock { x: (self.x + dx) as i32, y: (self.y + dy) as i32, ..self }
    }

    /// The board cells of the piece's four dots, in catalog order.
    pub fn dots(&self) -> (dots: [ActiveDot; 4])
        ensures
            forall|i: int|
                0 <= i < 4 ==> {
                    &&& (#[trigger] dots[i]).board_x == world_col(self.x as int) + self.block.cells()[i].x
                    &&& dots[i].board_y == world_row(self.y as int) + self.block.cells()[i].y
                },
    {
        let offsets: [Dot; 4] = self.block.dots_by_state();
        let c0 = get_dot_position_in_board(self.x, self.y, offsets[0].x, offsets[0].y);
        let c1 = get_dot_position_in_board(self.x, self.y, offsets[1].x, offsets[1].y);
        let c2 = get_dot_position_in_board(self.x, self.y, offsets[2].x, offsets[2].y);
        let c3 = get_dot_position_in_board(self.x, self.y, offsets[3].x, offsets[3].y);
        [
            ActiveDot { board_x: c0.0, board_y: c0.1 },
            ActiveDot { board_x: c1.0, board_y: c1.1 },
            ActiveDot { board_x: c2.0, board_y: c2.1 },
            ActiveDot { board_x: c3.0, board_y: c3.1 },
        ]
    }
}

impl GameData {
    /// The validity of a session: the piece in play, if there is one, lies on
    /// the board, and the level is the one reached with the rows cleared so
    /// far, one more than a tenth of their number.
    pub open spec fn wf(self) -> bool {
        &&& self.active is Some ==> self.active.unwrap().is_on_board()
        &&& self.level == self.lines_cleared / 10 + 1
    }

    /// Whether this is the state in which every session starts.
    pub open spec fn is_initial(self) -> bool {
        &&& board_empty(self.board_matrix)
        &&& self.keyboard_timer == Timer { elapsed: 0, interval: TIMER_KEYBOARD_MICROS, one_shot: false, finished: false }
        &&& self.drop_timer == Timer { elapsed: 0, interval: TIMER_DROP_MICROS, one_shot: false, finished: false }
        &&& self.soft_drop_timer == Timer { elapsed: 0, interval: TIMER_SOFT_DROP_MICROS, one_shot: false, finished: false }
        &&& self.hard_drop_timer == Timer { elapsed: 0, interval: TIMER_HARD_DROP_MICROS, one_shot: false, finished: false }
        &&& self.lock_delay_timer == Timer { elapsed: 0, interval: LOCK_DELAY_MICROS, one_shot: true, finished: false }
        &&& !self.lock_delay_active
        &&& self.lock_move_count == 0
        &&& self.score == 0
        &&& self.lines_cleared == 0
        &&& self.level == 1
        &&& self.held_block is None
        &&& !self.hold_used
        &&& self.soft_drop_cells == 0
        &&& self.hard_drop_start_y is None
        &&& self.active is None
        &&& self.drop_type == DropType::Normal
        &&& self.state == GameState::Playing
    }
}

impl GameData {
    /// Whether the session is valid.
    pub fn is_valid(&self) -> (ok: bool)
        ensures
            ok == self.wf(),
    {
        let level_ok = self.level as u64 == self.lines_cleared as u64 / 10 + 1;
        let piece_ok = match self.active {
            Some(piece) => {
                let free = empty_board();
                proof {
                    lemma_fits_empty_board(
                        free,
                        piece.x as int,
                        piece.y as int,
                        piece.block.kind_of(),
                        piece.block.state_of(),
                    );
                }
                board_check_block_position(&free, piece.x, piece.y, &piece.block)
            },
            None => true,
        };
        level_ok && piece_ok
    }
}

impl Default for GameData {
    fn default() -> (game: Self)
        ensures
            game.is_initial(),
            game.wf(),
    {
        GameData {
            board_matrix: empty_board(),
            keyboard_timer: Timer::repeating(TIMER_KEYBOARD_MICROS),
            drop_timer: Timer::repeating(TIMER_DROP_MICROS),
            soft_drop_timer: Timer::repeating(TIMER_SOFT_DROP_MICROS),
            hard_drop_timer: Timer::repeating(TIMER_HARD_DROP_MICROS),
            lock_delay_timer: Timer::once(LOCK_DELAY_MICROS),
            lock_delay_active: false,
            lock_move_count: 0,
            score: 0,
            lines_cleared: 0,
            level: 1,
            held_block: None,
            hold_used: false,
            soft_drop_cells: 0,
            hard_drop_start_y: None,
            active: None,
            drop_type: DropType::Normal,
            state: GameState::Playing,
        }
    }
}

} // verus!
