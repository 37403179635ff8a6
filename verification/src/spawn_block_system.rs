use vstd::prelude::*;

use rand::seq::SliceRandom;

use crate::board::{
    board_check_block_position, board_empty, lemma_fits_empty_board, lemma_fits_on_board, on_board, world_col,
    world_row, Board,
};
use crate::common_component::{ActiveBlock, DropType, GameData, GameState, SPAWN_X, SPAWN_Y, SPAWN_Y_I};
use crate::tetromino::{block_of, lemma_shape_four_dots, shape, Block, Kind, State};

verus! {

/// The 7-bag randomizer: a queue of upcoming pieces, made of shuffled bags
/// that each hold every piece type once.
pub struct Randomizer7Bag {
    bag: Vec<Block>,
}

/// One piece of each type, in rotation state Zero, in catalog order.
pub open spec fn full_bag() -> Seq<Block> {
    seq![
        Block::I { state: State::Zero },
        Block::O { state: State::Zero },
        Block::T { state: State::Zero },
        Block::S { state: State::Zero },
        Block::Z { state: State::Zero },
        Block::J { state: State::Zero },
        Block::L { state: State::Zero },
    ]
}

/// Whether `s` is a full bag in some order: a rearrangement of one piece of
/// each type.
pub open spec fn is_full_bag(s: Seq<Block>) -> bool {
    s.to_multiset() == full_bag().to_multiset()
}

/// Whether `q` can be the queue of a randomizer: it holds from 7 to 14
/// pieces, its last seven are a full bag, and where it holds 14 its first
/// seven are a full bag too.
pub open spec fn is_bag_queue(q: Seq<Block>) -> bool {
    &&& 7 <= q.len() <= 14
    &&& is_full_bag(q.skip(q.len() - 7))
    &&& q.len() == 14 ==> is_full_bag(q.take(7))
}

/// Whether `next` can be the queue after one piece was taken from the front
/// of `q`: the rest of `q`, followed by a new full bag where fewer than seven
/// pieces were left.
pub open spec fn is_popped(q: Seq<Block>, next: Seq<Block>) -> bool {
    &&& q.len() > 0
    &&& if q.len() - 1 < 7 {
        &&& next.len() == q.len() + 6
        &&& next.take(q.len() - 1) == q.skip(1)
        &&& is_full_bag(next.skip(q.len() - 1))
    } else {
        next == q.skip(1)
    }
}

/// The world position at which a piece of type `kind` is spawned.
pub open spec fn spawn_point(kind: Kind) -> (int, int) {
    if kind == Kind::I {
        (SPAWN_X as int, SPAWN_Y_I as int)
    } else {
        (SPAWN_X as int, SPAWN_Y as int)
    }
}

/// The piece `block` in play at its spawn position.
pub open spec fn at_spawn(block: Block) -> ActiveBlock {
    ActiveBlock {
        block,
        x: spawn_point(block.kind_of()).0 as i32,
        y: spawn_point(block.kind_of()).1 as i32,
    }
}

/// The session after the spawn step was given `block` as the next piece: the
/// drop mode is Normal and the gravity timer starts afresh; the piece is in
/// play at its spawn position if it fits there, and the game is over if it
/// does not.
pub open spec fn spawned(g: GameData, block: Block) -> GameData {
    let fresh = GameData { drop_type: DropType::Normal, drop_timer: g.drop_timer.rewound(), ..g };
    if at_spawn(block).fits_on(g.board_matrix) {
        GameData { active: Some(at_spawn(block)), ..fresh }
    } else {
        GameData { state: GameState::GameOver, ..fresh }
    }
}

/// Whether the spawn step has work to do: the session is in play and no
/// piece is in play.
pub open spec fn wants_piece(g: GameData) -> bool {
    g.state == GameState::Playing && g.active is None
}

/// One piece of each type, in catalog order.
fn fresh_bag() -> (bag: Vec<Block>)
    ensures
        bag@ == full_bag(),
{
    let bag = vec![
        Block::new_i(),
        Block::new_o(),
        Block::new_t(),
        Block::new_s(),
        Block::new_z(),
        Block::new_j(),
        Block::new_l(),
    ];
    assert(bag@ =~= full_bag());
    bag
}

/// The random number generator of `rand` that belongs to the running thread.
/// Nothing is known of what it holds.
#[verifier::external_type_specification]
#[verifier::external_body]
pub struct ExThreadRng(rand::rngs::ThreadRng);

/// Calls `rand::thread_rng`, which hands out the generator of the running
/// thread. Nothing is claimed of the generator.
#[verifier::external_body]
fn thread_generator() -> (rng: rand::rngs::ThreadRng) {
    rand::thread_rng()
}

/// Calls `rand::seq::SliceRandom::shuffle` on the pieces of `bag`. The
/// shuffle does nothing but swap elements of the slice, so afterwards the
/// vector holds the same pieces, each as often as before. Nothing is claimed
/// of their order, which depends on the generator.
#[verifier::external_body]
fn shuffle_blocks(bag: &mut Vec<Block>, rng: &mut rand::rngs::ThreadRng)
    ensures
        final(bag)@.to_multiset() == old(bag)@.to_multiset(),
{
    bag.shuffle(rng);
}

/// A full bag in random order.
fn shuffled_bag() -> (bag: Vec<Block>)
    ensures
        is_full_bag(bag@),
{
    let mut bag = fresh_bag();
    let mut rng = thread_generator();
    shuffle_blocks(&mut bag, &mut rng);
    bag
}

impl View for Randomizer7Bag {
    type V = Seq<Block>;

    closed spec fn view(&self) -> Seq<Block> {
        self.bag@
    }
}

impl Randomizer7Bag {
    /// The validity of a randomizer, which every randomizer has.
    #[verifier::type_invariant]
    pub open spec fn wf(&self) -> bool {
        is_bag_queue(self@)
    }

    /// Starts the queue afresh with two full bags, each shuffled on its own.
    pub fn init(&mut self)
        ensures
            final(self).wf(),
            final(self)@.len() == 14,
    {
        let mut bag = shuffled_bag();
        let mut second = shuffled_bag();
        let ghost first_half = bag@;
        let ghost second_half = second@;
        proof {
            lemma_full_bag_holds_each_once(first_half);
            lemma_full_bag_holds_each_once(second_half);
        }
        bag.append(&mut second);
        assert(bag@.take(7) =~= first_half);
        assert(bag@.skip(7) =~= second_half);
        self.bag = bag;
    }

    /// How many pieces are in the queue.
    pub fn len(&self) -> (len: usize)
        ensures
            len == self@.len(),
            self.wf(),
    {
        proof {
            use_type_invariant(self);
        }
        self.bag.len()
    }

    /// Takes the next piece from the front of the queue, and appends a newly
    /// shuffled full bag when fewer than seven pieces are left.
    pub fn pop_next(&mut self) -> (block: Block)
        ensures
            old(self).wf(),
            block == old(self)@[0],
            is_popped(old(self)@, final(self)@),
            final(self).wf(),
            final(self)@.len() < 14,
    {
        proof {
            use_type_invariant(&*self);
        }
        let ghost before = self.bag@;
        let block = self.bag[0];
        let mut rest: Vec<Block> = Vec::new();
        let mut i: usize = 1;
        while i < self.bag.len()
            invariant
                1 <= i <= self.bag@.len(),
                self.bag@ == before,
                rest@ =~= before.subrange(1, i as int),
            decreases self.bag@.len() - i,
        {
            rest.push(self.bag[i]);
            i += 1;
        }
        assert(rest@ =~= before.skip(1));
        if rest.len() < 7 {
            let mut refill = shuffled_bag();
            let ghost added = refill@;
            proof {
                lemma_full_bag_holds_each_once(added);
            }
            rest.append(&mut refill);
            assert(rest@.take(before.len() - 1) =~= before.skip(1));
            assert(rest@.skip(before.len() - 1) =~= added);
            assert(rest@.skip(rest@.len() - 7) =~= added);
        } else {
            assert(rest@.skip(rest@.len() - 7) =~= before.skip(before.len() - 7));
        }
        self.bag = rest;
        block
    }

    /// The next `n` pieces of the queue, or all of them where it holds fewer,
    /// in the order in which they will come. The queue stays as it is.
    pub fn peek(&self, n: usize) -> (next: Vec<Block>)
        ensures
            next@ == self@.take(if n <= self@.len() { n as int } else { self@.len() as int }),
            self.wf(),
    {
        proof {
            use_type_invariant(self);
        }
        let mut next: Vec<Block> = Vec::new();
        let mut i: usize = 0;
        while i < n && i < self.bag.len()
            invariant
                0 <= i <= self.bag@.len(),
                i <= n,
                next@ =~= self.bag@.take(i as int),
            decreases self.bag@.len() - i,
        {
            next.push(self.bag[i]);
            i += 1;
        }
        next
    }
}

impl Default for Randomizer7Bag {
    fn default() -> (randomizer: Self)
        ensures
            randomizer.wf(),
            randomizer@.len() == 14,
    {
        let mut bag = shuffled_bag();
        let mut second = shuffled_bag();
        let ghost first_half = bag@;
        let ghost second_half = second@;
        proof {
            lemma_full_bag_holds_each_once(first_half);
            lemma_full_bag_holds_each_once(second_half);
        }
        bag.append(&mut second);
        assert(bag@.take(7) =~= first_half);
        assert(bag@.skip(7) =~= second_half);
        Randomizer7Bag { bag }
    }
}

/// The world position at which `block` is spawned.
pub fn spawn_position(block: &Block) -> (at: (i32, i32))
    ensures
        at.0 == spawn_point(block.kind_of()).0,
        at.1 == spawn_point(block.kind_of()).1,
{
    match block {
        Block::I { .. } => (SPAWN_X, SPAWN_Y_I),
        _ => (SPAWN_X, SPAWN_Y),
    }
}

/// The spawn step for a given next piece: puts `block` in play at its spawn
/// position if it fits there, and ends the game if it does not.
pub fn spawn_block(game: &mut GameData, block: Block)
    ensures
        *final(game) == spawned(*old(game), block),
        old(game).wf() ==> final(game).wf(),
{
    let (x, y) = spawn_position(&block);
    game.drop_type = DropType::Normal;
    game.drop_timer.reset();
    if board_check_block_position(&game.board_matrix, x, y, &block) {
        proof {
            lemma_fits_on_board(game.board_matrix, x as int, y as int, block.kind_of(), block.state_of());
        }
        game.active = Some(ActiveBlock { block, x, y });
    } else {
        game.state = GameState::GameOver;
    }
}

/// The spawn step: where the session is in play and no piece is in play, the
/// next piece of the randomizer is spawned. Returns whether a piece was
/// taken from the randomizer.
pub fn spawn_block_system(game: &mut GameData, randomizer: &mut Randomizer7Bag) -> (has_taken: bool)
    requires
        old(game).wf(),
    ensures
        old(randomizer).wf(),
        has_taken == wants_piece(*old(game)),
        has_taken ==> *final(game) == spawned(*old(game), old(randomizer)@[0]) && is_popped(
            old(randomizer)@,
            final(randomizer)@,
        ),
        !has_taken ==> *final(game) == *old(game) && final(randomizer)@ == old(randomizer)@,
        final(game).wf(),
        final(randomizer).wf(),
{
    proof {
        use_type_invariant(&*randomizer);
    }
    if game.state != GameState::Playing || game.active.is_some() {
        return false;
    }
    let block = randomizer.pop_next();
    spawn_block(game, block);
    true
}

/// A full bag holds seven pieces, no piece twice, and one of each type in
/// rotation state Zero: each of the seven piece types exactly once.
pub proof fn lemma_full_bag_holds_each_once(s: Seq<Block>)
    requires
        is_full_bag(s),
    ensures
        s.len() == 7,
        s.no_duplicates(),
        forall|kind: Kind| s.contains(#[trigger] block_of(kind, State::Zero)),
        forall|i: int| 0 <= i < s.len() ==> (#[trigger] s[i]).state_of() == State::Zero,
{
    broadcast use vstd::seq_lib::to_multiset_len, vstd::seq_lib::to_multiset_contains;

    let f = full_bag();
    assert(f.len() == 7);
    assert(s.to_multiset().len() == f.to_multiset().len());
    assert(f.no_duplicates());
    f.lemma_multiset_has_no_duplicates();
    s.lemma_multiset_has_no_duplicates_conv();
    assert forall|kind: Kind| s.contains(#[trigger] block_of(kind, State::Zero)) by {
        let b = block_of(kind, State::Zero);
        assert(f[0] == block_of(Kind::I, State::Zero));
        assert(f[1] == block_of(Kind::O, State::Zero));
        assert(f[2] == block_of(Kind::T, State::Zero));
        assert(f[3] == block_of(Kind::S, State::Zero));
        assert(f[4] == block_of(Kind::Z, State::Zero));
        assert(f[5] == block_of(Kind::J, State::Zero));
        assert(f[6] == block_of(Kind::L, State::Zero));
        assert(f.contains(b));
        assert(f.to_multiset().count(b) > 0);
    }
    assert forall|i: int| 0 <= i < s.len() implies (#[trigger] s[i]).state_of() == State::Zero by {
        assert(s.contains(s[i]));
        assert(s.to_multiset().count(s[i]) > 0);
        assert(f.contains(s[i]));
    }
}

/// Seven pieces taken in a row from a randomizer that stands at the start of
/// a bag, as a newly initialised one does, are the first seven of its queue,
/// and they are a full bag: each of the seven piece types exactly once.
/// `queues` holds the queue before the first piece is taken and after each
/// of the seven.
pub proof fn lemma_seven_pops_are_a_bag(queues: Seq<Seq<Block>>)
    requires
        queues.len() == 8,
        is_bag_queue(queues[0]),
        queues[0].len() == 14 || queues[0].len() == 7,
        forall|i: int| 0 <= i < 7 ==> is_popped(#[trigger] queues[i], queues[i + 1]),
    ensures
        forall|i: int| 0 <= i < 7 ==> (#[trigger] queues[i])[0] == queues[0][i],
        is_full_bag(queues[0].take(7)),
        is_bag_queue(queues[7]),
        queues[7].len() == 7,
{
    let q = queues[0];
    assert(is_full_bag(q.take(7))) by {
        if q.len() == 7 {
            assert(q.take(7) =~= q.skip(q.len() - 7));
        }
    }
    assert(is_popped(queues[0], queues[1]));
    assert(is_popped(queues[1], queues[2]));
    assert(is_popped(queues[2], queues[3]));
    assert(is_popped(queues[3], queues[4]));
    assert(is_popped(queues[4], queues[5]));
    assert(is_popped(queues[5], queues[6]));
    assert(is_popped(queues[6], queues[7]));
    if q.len() == 14 {
        assert(queues[1] == q.skip(1));
        assert(queues[2] =~= q.skip(2));
        assert(queues[3] =~= q.skip(3));
        assert(queues[4] =~= q.skip(4));
        assert(queues[5] =~= q.skip(5));
        assert(queues[6] =~= q.skip(6));
        assert(queues[7] =~= q.skip(7));
        assert(queues[7].skip(0) =~= q.skip(7));
    } else {
        let r = queues[1];
        assert(r.len() == 13);
        assert(r.take(6) == q.skip(1));
        assert(is_full_bag(r.skip(6)));
        assert(queues[2] =~= r.skip(1));
        assert(queues[3] =~= r.skip(2));
        assert(queues[4] =~= r.skip(3));
        assert(queues[5] =~= r.skip(4));
        assert(queues[6] =~= r.skip(5));
        assert(queues[7] =~= r.skip(6));
        assert(queues[7].skip(0) =~= r.skip(6));
        assert forall|i: int| 1 <= i < 7 implies (#[trigger] queues[i])[0] == q[i] by {
            assert(r.take(6)[i - 1] == q.skip(1)[i - 1]);
        }
    }
}

/// Every piece in rotation state Zero lies on the board at its spawn
/// position.
pub proof fn lemma_spawn_on_board(kind: Kind)
    ensures
        at_spawn(block_of(kind, State::Zero)).is_on_board(),
{
    lemma_shape_four_dots(kind, State::Zero);
    let s = shape(kind, State::Zero);
    assert(world_col(SPAWN_X as int) == 3);
    assert(world_row(SPAWN_Y as int) == 0);
    assert(world_row(SPAWN_Y_I as int) == -1);
    assert(block_of(kind, State::Zero).kind_of() == kind);
    assert(block_of(kind, State::Zero).state_of() == State::Zero);
    if kind == Kind::I {
        assert(s[0].y == 1 && s[1].y == 1 && s[2].y == 1 && s[3].y == 1);
    } else {
        assert(s[0].y <= 1 && s[1].y <= 1 && s[2].y <= 1 && s[3].y <= 1);
    }
    assert(on_board(spawn_point(kind).0, spawn_point(kind).1, kind, State::Zero));
}

/// On an empty board every piece fits at its spawn position: the first spawn
/// of a session never ends the game.
pub proof fn lemma_spawn_fits_empty_board(board: Board, kind: Kind)
    requires
        board_empty(board),
    ensures
        at_spawn(block_of(kind, State::Zero)).fits_on(board),
{
    lemma_spawn_on_board(kind);
    lemma_fits_empty_board(board, spawn_point(kind).0, spawn_point(kind).1, kind, State::Zero);
}

} // verus!
