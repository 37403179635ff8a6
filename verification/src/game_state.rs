use vstd::prelude::*;

use crate::common_component::{GameData, GameState};
use crate::spawn_block_system::Randomizer7Bag;

verus! {

/// The lifecycle state after a pause intent: play is paused, a paused
/// session resumes, and a finished one stays finished.
pub open spec fn pause_toggled(state: GameState) -> GameState {
    match state {
        GameState::Playing => GameState::Paused,
        GameState::Paused => GameState::Playing,
        GameState::GameOver => GameState::GameOver,
    }
}

/// Applies a pause intent: only the lifecycle state changes, so every timer
/// stays where it is.
pub fn pause_system(game: &mut GameData)
    ensures
        *final(game) == (GameData { state: pause_toggled(old(game).state), ..*old(game) }),
        old(game).wf() ==> final(game).wf(),
{
    match game.state {
        GameState::Playing => {
            game.state = GameState::Paused;
        },
        GameState::Paused => {
            game.state = GameState::Playing;
        },
        GameState::GameOver => {},
    }
}

/// Applies a restart intent: a finished session starts over with an empty
/// board, the initial score, level and timers, nothing held and no piece in
/// play, and the randomizer starts over with two new bags. A session that is
/// not finished stays as it is. Returns whether the session started over.
pub fn restart_system(game: &mut GameData, randomizer: &mut Randomizer7Bag) -> (has_restarted: bool)
    ensures
        has_restarted == (old(game).state == GameState::GameOver),
        has_restarted ==> final(game).is_initial() && final(randomizer).wf() && final(randomizer)@.len() == 14,
        !has_restarted ==> *final(game) == *old(game) && final(randomizer)@ == old(randomizer)@,
        old(game).wf() ==> final(game).wf(),
{
    if game.state != GameState::GameOver {
        return false;
    }
    *game = GameData::default();
    randomizer.init();
    true
}

/// Pausing twice brings a session in play back to where it was.
pub proof fn lemma_pause_twice(state: GameState)
    ensures
        pause_toggled(pause_toggled(state)) == state,
{
}

} // verus!
