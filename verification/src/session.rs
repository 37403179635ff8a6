use vstd::prelude::*;

use crate::common_component::{DropType, GameData, GameState, Intent};
use crate::drop::{block_drop_system, block_drop_type_system, drop_stepped, drop_type_changed};
use crate::game_state::{pause_system, pause_toggled, restart_system};
use crate::hold::{held, hold_block_system};
use crate::line_clear::{eliminate_line_system, rows_cleared, row_moves};
use crate::movement::{block_movement_system, moved_sideways};
use crate::rotation::{block_rotation_system, rotated};
use crate::spawn_block_system::{is_bag_queue, is_popped, spawn_block_system, spawned, wants_piece, Randomizer7Bag};
use crate::tetromino::Block;

verus! {

/// Whether `post` and `queue_post` can be the session and the randomizer's
/// queue after the lifecycle intents of a step were applied to `pre` and
/// `queue`: a pause intent toggles between play and pause; a restart intent
/// starts a finished session over, with a new queue of two full bags; any
/// other intent, and none, changes nothing.
pub open spec fn lifecycle_applied(
    pre: GameData,
    queue: Seq<Block>,
    intent: Option<Intent>,
    post: GameData,
    queue_post: Seq<Block>,
) -> bool {
    if intent == Some(Intent::Pause) {
        post == (GameData { state: pause_toggled(pre.state), ..pre }) && queue_post == queue
    } else if intent == Some(Intent::Restart) && pre.state == GameState::GameOver {
        post.is_initial() && is_bag_queue(queue_post) && queue_post.len() == 14
    } else {
        post == pre && queue_post == queue
    }
}

/// Whether `post` and `queue_post` can be the session and the queue after the
/// spawn step on `pre` and `queue`.
pub open spec fn spawn_applied(pre: GameData, queue: Seq<Block>, post: GameData, queue_post: Seq<Block>) -> bool {
    if wants_piece(pre) {
        post == spawned(pre, queue[0]) && is_popped(queue, queue_post)
    } else {
        post == pre && queue_post == queue
    }
}

/// The session after the drop intent of a step, if there is one.
pub open spec fn drop_intent_applied(g: GameData, intent: Option<Intent>) -> GameData {
    match intent {
        Some(i) => drop_type_changed(g, i),
        None => g,
    }
}

/// The session after the move, rotation or hold intent of a step, if there
/// is one.
pub open spec fn piece_intent_applied(g: GameData, intent: Option<Intent>) -> GameData {
    match intent {
        Some(i) => if i == Intent::Hold {
            held(g)
        } else {
            rotated(moved_sideways(g, i), i)
        },
        None => g,
    }
}

/// Whether the sessions and queues given are the stages of one step, in the
/// fixed order: lifecycle intents, spawn, drop intent, the drop and lock
/// state machine, line clearing, and last the move, rotation or hold intent.
/// Line clearing works on the session just as the drop and lock state
/// machine left it.
pub open spec fn step_stages(
    pre: GameData,
    queue: Seq<Block>,
    intent: Option<Intent>,
    delta: u64,
    begun: GameData,
    queue_begun: Seq<Block>,
    supplied: GameData,
    dropped: GameData,
    cleared: GameData,
    post: GameData,
    queue_post: Seq<Block>,
) -> bool {
    &&& lifecycle_applied(pre, queue, intent, begun, queue_begun)
    &&& spawn_applied(begun, queue_begun, supplied, queue_post)
    &&& drop_stepped(drop_intent_applied(supplied, intent), delta, dropped)
    &&& rows_cleared(dropped, cleared)
    &&& post == piece_intent_applied(cleared, intent)
}

/// Whether `post`, `queue_post` and `moves` can be the outcome of one step of
/// `delta` microseconds with the given intent on `pre` and `queue`; `moves`
/// is line clearing's report on the rows that moved.
pub open spec fn stepped(
    pre: GameData,
    queue: Seq<Block>,
    intent: Option<Intent>,
    delta: u64,
    post: GameData,
    queue_post: Seq<Block>,
    moves: Seq<u8>,
) -> bool {
    exists|begun: GameData, queue_begun: Seq<Block>, supplied: GameData, dropped: GameData, cleared: GameData|
        #[trigger] step_stages(
            pre,
            queue,
            intent,
            delta,
            begun,
            queue_begun,
            supplied,
            dropped,
            cleared,
            post,
            queue_post,
        ) && moves == row_moves(dropped)
}

/// One simulation step: applies the intent of this step, if there is one,
/// and advances the session by `delta` microseconds. Returns, for each row
/// of the board, by how many rows line clearing moved its contents down.
pub fn tick(game: &mut GameData, randomizer: &mut Randomizer7Bag, intent: Option<Intent>, delta: u64) -> (moves:
    Vec<u8>)
    requires
        old(game).wf(),
    ensures
        old(randomizer).wf(),
        stepped(*old(game), old(randomizer)@, intent, delta, *final(game), final(randomizer)@, moves@),
        final(game).wf(),
        final(randomizer).wf(),
{
    proof {
        use_type_invariant(&*randomizer);
    }
    match intent {
        Some(Intent::Pause) => {
            pause_system(game);
        },
        Some(Intent::Restart) => {
            restart_system(game, randomizer);
        },
        _ => {},
    }
    let ghost begun = *game;
    let ghost queue_begun = randomizer@;
    assert(lifecycle_applied(*old(game), old(randomizer)@, intent, begun, queue_begun));
    spawn_block_system(game, randomizer);
    let ghost supplied = *game;
    if let Some(i) = intent {
        block_drop_type_system(game, i);
    }
    block_drop_system(game, delta);
    let ghost dropped = *game;
    let moves = eliminate_line_system(game);
    let ghost cleared = *game;
    if let Some(i) = intent {
        if i == Intent::Hold {
            hold_block_system(game);
        } else {
            block_movement_system(game, i);
            block_rotation_system(game, i);
        }
    }
    assert(step_stages(
        *old(game),
        old(randomizer)@,
        intent,
        delta,
        begun,
        queue_begun,
        supplied,
        dropped,
        cleared,
        *game,
        randomizer@,
    ));
    moves
}

/// No stage of a step lowers the score or the number of rows cleared.
pub proof fn lemma_step_never_lowers_score(
    pre: GameData,
    queue: Seq<Block>,
    intent: Option<Intent>,
    delta: u64,
    post: GameData,
    queue_post: Seq<Block>,
    moves: Seq<u8>,
)
    requires
        stepped(pre, queue, intent, delta, post, queue_post, moves),
        !(intent == Some(Intent::Restart) && pre.state == GameState::GameOver),
    ensures
        post.score >= pre.score,
        post.lines_cleared >= pre.lines_cleared,
{
}

/// A paused session stands still: a step without a pause intent changes
/// neither the session, timers included, nor the queue, and no row moves.
pub proof fn lemma_paused_step_changes_nothing(
    pre: GameData,
    queue: Seq<Block>,
    intent: Option<Intent>,
    delta: u64,
    post: GameData,
    queue_post: Seq<Block>,
    moves: Seq<u8>,
)
    requires
        stepped(pre, queue, intent, delta, post, queue_post, moves),
        pre.state == GameState::Paused,
        intent != Some(Intent::Pause),
    ensures
        post == pre,
        queue_post == queue,
        forall|j: int| 0 <= j < moves.len() ==> moves[j] == 0,
{
}

/// A finished session waits for a restart: a step without a restart intent
/// changes neither the session nor the queue.
pub proof fn lemma_finished_session_waits(
    pre: GameData,
    queue: Seq<Block>,
    intent: Option<Intent>,
    delta: u64,
    post: GameData,
    queue_post: Seq<Block>,
    moves: Seq<u8>,
)
    requires
        stepped(pre, queue, intent, delta, post, queue_post, moves),
        pre.state == GameState::GameOver,
        intent != Some(Intent::Restart),
    ensures
        post == pre,
        queue_post == queue,
{
}

/// A hard drop cannot be cancelled: while the session is in a hard drop no
/// intent changes the drop mode, moves or turns the piece, or holds it.
pub proof fn lemma_hard_drop_is_not_cancelled(g: GameData, intent: Intent)
    requires
        g.drop_type == DropType::Hard,
    ensures
        drop_type_changed(g, intent) == g,
        moved_sideways(g, intent) == g,
        rotated(g, intent) == g,
        held(g) == g,
{
}

/// The hold flag is cleared only by a lock, or by a restart: a step in which
/// the drop and lock state machine starts with a piece in play and does not
/// lock it, and which starts no new session, leaves a flag that was set as
/// it was.
pub proof fn lemma_hold_flag_lasts_until_lock(
    pre: GameData,
    queue: Seq<Block>,
    intent: Option<Intent>,
    delta: u64,
    begun: GameData,
    queue_begun: Seq<Block>,
    supplied: GameData,
    dropped: GameData,
    cleared: GameData,
    post: GameData,
    queue_post: Seq<Block>,
)
    requires
        step_stages(pre, queue, intent, delta, begun, queue_begun, supplied, dropped, cleared, post, queue_post),
        pre.hold_used,
        !(intent == Some(Intent::Restart) && pre.state == GameState::GameOver),
        !(supplied.active is Some && dropped.active is None),
    ensures
        post.hold_used,
{
}

} // verus!
