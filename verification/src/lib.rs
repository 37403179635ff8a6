pub mod board;
pub mod common_component;
pub mod compaction;
pub mod drop;
pub mod game_state;
pub mod ghost;
pub mod gravity;
pub mod hold;
pub mod line_clear;
pub mod movement;
pub mod rotation;
pub mod session;
pub mod settled;
pub mod spawn_block_system;
pub mod tetromino;
pub mod timer;
