use vstd::prelude::*;

verus! {

/// One unit cell of a piece, as an offset from the piece's anchor: `x` counts
/// columns to the right, `y` counts rows downwards.
#[derive(Clone, Copy, Default, Debug, PartialEq, Eq, Structural)]
pub struct Dot {
    pub x: i8,
    pub y: i8,
}

/// The four rotation states of a piece.
#[derive(Clone, Copy, Debug, PartialEq, Eq, Structural)]
pub enum State {
    Zero,
    One,
    Two,
    Three,
}

/// The seven piece types.
#[derive(Clone, Copy, Debug, PartialEq, Eq, Structural)]
pub enum Kind {
    I,
    O,
    T,
    S,
    Z,
    J,
    L,
}

/// A piece: its type, fixed at creation, and its current rotation state.
#[derive(Clone, Copy, Debug, PartialEq, Eq, Structural)]
pub enum Block {
    I { state: State },
    O { state: State },
    T { state: State },
    S { state: State },
    Z { state: State },
    J { state: State },
    L { state: State },
}

/// The rotation cycle: right is Zero, One, Two, Three and back to Zero; left
/// is the inverse.
pub struct Rotation;

impl State {
    /// The state one step to the right in the cycle.
    pub open spec fn right(self) -> State {
        match self {
            State::Zero => State::One,
            State::One => State::Two,
            State::Two => State::Three,
            State::Three => State::Zero,
        }
    }

    /// The state one step to the left in the cycle.
    pub open spec fn left(self) -> State {
        match self {
            State::Zero => State::Three,
            State::One => State::Zero,
            State::Two => State::One,
            State::Three => State::Two,
        }
    }

    /// The position of the state in the cycle, from 0 to 3.
    pub open spec fn index(self) -> int {
        match self {
            State::Zero => 0,
            State::One => 1,
            State::Two => 2,
            State::Three => 3,
        }
    }
}

/// The offset `(x, y)` as a `Dot`.
pub open spec fn dot(x: int, y: int) -> Dot {
    Dot { x: x as i8, y: y as i8 }
}

/// The shape catalog: the four dots of each piece type in each rotation state.
pub open spec fn shape(kind: Kind, state: State) -> Seq<Dot> {
    match (kind, state) {
        (Kind::I, State::Zero) => seq![dot(0, 1), dot(1, 1), dot(2, 1), dot(3, 1)],
        (Kind::I, State::One) => seq![dot(2, 0), dot(2, 1), dot(2, 2), dot(2, 3)],
        (Kind::I, State::Two) => seq![dot(0, 2), dot(1, 2), dot(2, 2), dot(3, 2)],
        (Kind::I, State::Three) => seq![dot(1, 0), dot(1, 1), dot(1, 2), dot(1, 3)],
        (Kind::O, State::Zero) => seq![dot(1, 0), dot(2, 0), dot(1, 1), dot(2, 1)],
        (Kind::O, State::One) => seq![dot(1, 0), dot(2, 0), dot(1, 1), dot(2, 1)],
        (Kind::O, State::Two) => seq![dot(1, 0), dot(2, 0), dot(1, 1), dot(2, 1)],
        (Kind::O, State::Three) => seq![dot(1, 0), dot(2, 0), dot(1, 1), dot(2, 1)],
        (Kind::T, State::Zero) => seq![dot(1, 0), dot(0, 1), dot(1, 1), dot(2, 1)],
        (Kind::T, State::One) => seq![dot(1, 0), dot(1, 1), dot(2, 1), dot(1, 2)],
        (Kind::T, State::Two) => seq![dot(0, 1), dot(1, 1), dot(2, 1), dot(1, 2)],
        (Kind::T, State::Three) => seq![dot(1, 0), dot(0, 1), dot(1, 1), dot(1, 2)],
        (Kind::S, State::Zero) => seq![dot(1, 0), dot(2, 0), dot(0, 1), dot(1, 1)],
        (Kind::S, State::One) => seq![dot(1, 0), dot(1, 1), dot(2, 1), dot(2, 2)],
        (Kind::S, State::Two) => seq![dot(1, 1), dot(2, 1), dot(0, 2), dot(1, 2)],
        (Kind::S, State::Three) => seq![dot(0, 0), dot(0, 1), dot(1, 1), dot(1, 2)],
        (Kind::Z, State::Zero) => seq![dot(0, 0), dot(1, 0), dot(1, 1), dot(2, 1)],
        (Kind::Z, State::One) => seq![dot(2, 0), dot(1, 1), dot(2, 1), dot(1, 2)],
        (Kind::Z, State::Two) => seq![dot(0, 1), dot(1, 1), dot(1, 2), dot(2, 2)],
        (Kind::Z, State::Three) => seq![dot(1, 0), dot(0, 1), dot(1, 1), dot(0, 2)],
        (Kind::J, State::Zero) => seq![dot(0, 0), dot(0, 1), dot(1, 1), dot(2, 1)],
        (Kind::J, State::One) => seq![dot(1, 0), dot(2, 0), dot(1, 1), dot(1, 2)],
        (Kind::J, State::Two) => seq![dot(0, 1), dot(1, 1), dot(2, 1), dot(2, 2)],
        (Kind::J, State::Three) => seq![dot(1, 0), dot(1, 1), dot(0, 2), dot(1, 2)],
        (Kind::L, State::Zero) => seq![dot(2, 0), dot(0, 1), dot(1, 1), dot(2, 1)],
        (Kind::L, State::One) => seq![dot(1, 0), dot(1, 1), dot(1, 2), dot(2, 2)],
        (Kind::L, State::Two) => seq![dot(0, 1), dot(1, 1), dot(2, 1), dot(0, 2)],
        (Kind::L, State::Three) => seq![dot(0, 0), dot(1, 0), dot(1, 1), dot(1, 2)],
    }
}

/// The display colour of each piece type, as red, green and blue from 0 to 255.
pub open spec fn kind_rgb(kind: Kind) -> (u8, u8, u8) {
    match kind {
        Kind::I => (0u8, 255u8, 255u8),
        Kind::O => (255u8, 255u8, 0u8),
        Kind::T => (153u8, 0u8, 255u8),
        Kind::S => (0u8, 255u8, 0u8),
        Kind::Z => (255u8, 0u8, 0u8),
        Kind::J => (0u8, 0u8, 255u8),
        Kind::L => (255u8, 170u8, 0u8),
    }
}

/// A piece of the given type in the given rotation state.
pub open spec fn block_of(kind: Kind, state: State) -> Block {
    match kind {
        Kind::I => Block::I { state },
        Kind::O => Block::O { state },
        Kind::T => Block::T { state },
        Kind::S => Block::S { state },
        Kind::Z => Block::Z { state },
        Kind::J => Block::J { state },
        Kind::L => Block::L { state },
    }
}

impl Block {
    /// The piece's type.
    pub open spec fn kind_of(self) -> Kind {
        match self {
            Block::I { .. } => Kind::I,
            Block::O { .. } => Kind::O,
            Block::T { .. } => Kind::T,
            Block::S { .. } => Kind::S,
            Block::Z { .. } => Kind::Z,
            Block::J { .. } => Kind::J,
            Block::L { .. } => Kind::L,
        }
    }

    /// The piece's rotation state.
    pub open spec fn state_of(self) -> State {
        match self {
            Block::I { state } => state,
            Block::O { state } => state,
            Block::T { state } => state,
            Block::S { state } => state,
            Block::Z { state } => state,
            Block::J { state } => state,
            Block::L { state } => state,
        }
    }

    /// The four dots that the piece covers in its current rotation state.
    pub open spec fn cells(self) -> Seq<Dot> {
        shape(self.kind_of(), self.state_of())
    }

    pub fn kind(&self) -> (kind: Kind)
        ensures
            kind == self.kind_of(),
    {
        match self {
            Block::I { .. } => Kind::I,
            Block::O { .. } => Kind::O,
            Block::T { .. } => Kind::T,
            Block::S { .. } => Kind::S,
            Block::Z { .. } => Kind::Z,
            Block::J { .. } => Kind::J,
            Block::L { .. } => Kind::L,
        }
    }

    pub fn state(&self) -> (state: &State)
        ensures
            *state == self.state_of(),
    {
        match self {
            Block::I { state } => state,
            Block::O { state } => state,
            Block::T { state } => state,
            Block::S { state } => state,
            Block::Z { state } => state,
            Block::J { state } => state,
            Block::L { state } => state,
        }
    }

    /// The rotation tables of the piece's type, one row of four dots for each
    /// rotation state in cycle order.
    fn dots(&self) -> (table: [[Dot; 4]; 4])
        ensures
            forall|s: State| #[trigger] table[s.index()]@ == shape(self.kind_of(), s),
    {
        let table: [[Dot; 4]; 4] = match self {
            Block::I { .. } => [
                [Dot { x: 0, y: 1 }, Dot { x: 1, y: 1 }, Dot { x: 2, y: 1 }, Dot { x: 3, y: 1 }],
                [Dot { x: 2, y: 0 }, Dot { x: 2, y: 1 }, Dot { x: 2, y: 2 }, Dot { x: 2, y: 3 }],
                [Dot { x: 0, y: 2 }, Dot { x: 1, y: 2 }, Dot { x: 2, y: 2 }, Dot { x: 3, y: 2 }],
                [Dot { x: 1, y: 0 }, Dot { x: 1, y: 1 }, Dot { x: 1, y: 2 }, Dot { x: 1, y: 3 }],
            ],
            Block::O { .. } => [
                [Dot { x: 1, y: 0 }, Dot { x: 2, y: 0 }, Dot { x: 1, y: 1 }, Dot { x: 2, y: 1 }],
                [Dot { x: 1, y: 0 }, Dot { x: 2, y: 0 }, Dot { x: 1, y: 1 }, Dot { x: 2, y: 1 }],
                [Dot { x: 1, y: 0 }, Dot { x: 2, y: 0 }, Dot { x: 1, y: 1 }, Dot { x: 2, y: 1 }],
                [Dot { x: 1, y: 0 }, Dot { x: 2, y: 0 }, Dot { x: 1, y: 1 }, Dot { x: 2, y: 1 }],
            ],
            Block::T { .. } => [
                [Dot { x: 1, y: 0 }, Dot { x: 0, y: 1 }, Dot { x: 1, y: 1 }, Dot { x: 2, y: 1 }],
                [Dot { x: 1, y: 0 }, Dot { x: 1, y: 1 }, Dot { x: 2, y: 1 }, Dot { x: 1, y: 2 }],
                [Dot { x: 0, y: 1 }, Dot { x: 1, y: 1 }, Dot { x: 2, y: 1 }, Dot { x: 1, y: 2 }],
                [Dot { x: 1, y: 0 }, Dot { x: 0, y: 1 }, Dot { x: 1, y: 1 }, Dot { x: 1, y: 2 }],
            ],
            Block::S { .. } => [
                [Dot { x: 1, y: 0 }, Dot { x: 2, y: 0 }, Dot { x: 0, y: 1 }, Dot { x: 1, y: 1 }],
                [Dot { x: 1, y: 0 }, Dot { x: 1, y: 1 }, Dot { x: 2, y: 1 }, Dot { x: 2, y: 2 }],
                [Dot { x: 1, y: 1 }, Dot { x: 2, y: 1 }, Dot { x: 0, y: 2 }, Dot { x: 1, y: 2 }],
                [Dot { x: 0, y: 0 }, Dot { x: 0, y: 1 }, Dot { x: 1, y: 1 }, Dot { x: 1, y: 2 }],
            ],
            Block::Z { .. } => [
                [Dot { x: 0, y: 0 }, Dot { x: 1, y: 0 }, Dot { x: 1, y: 1 }, Dot { x: 2, y: 1 }],
                [Dot { x: 2, y: 0 }, Dot { x: 1, y: 1 }, Dot { x: 2, y: 1 }, Dot { x: 1, y: 2 }],
                [Dot { x: 0, y: 1 }, Dot { x: 1, y: 1 }, Dot { x: 1, y: 2 }, Dot { x: 2, y: 2 }],
                [Dot { x: 1, y: 0 }, Dot { x: 0, y: 1 }, Dot { x: 1, y: 1 }, Dot { x: 0, y: 2 }],
            ],
            Block::J { .. } => [
                [Dot { x: 0, y: 0 }, Dot { x: 0, y: 1 }, Dot { x: 1, y: 1 }, Dot { x: 2, y: 1 }],
                [Dot { x: 1, y: 0 }, Dot { x: 2, y: 0 }, Dot { x: 1, y: 1 }, Dot { x: 1, y: 2 }],
                [Dot { x: 0, y: 1 }, Dot { x: 1, y: 1 }, Dot { x: 2, y: 1 }, Dot { x: 2, y: 2 }],
                [Dot { x: 1, y: 0 }, Dot { x: 1, y: 1 }, Dot { x: 0, y: 2 }, Dot { x: 1, y: 2 }],
            ],
            Block::L { .. } => [
                [Dot { x: 2, y: 0 }, Dot { x: 0, y: 1 }, Dot { x: 1, y: 1 }, Dot { x: 2, y: 1 }],
                [Dot { x: 1, y: 0 }, Dot { x: 1, y: 1 }, Dot { x: 1, y: 2 }, Dot { x: 2, y: 2 }],
                [Dot { x: 0, y: 1 }, Dot { x: 1, y: 1 }, Dot { x: 2, y: 1 }, Dot { x: 0, y: 2 }],
                [Dot { x: 0, y: 0 }, Dot { x: 1, y: 0 }, Dot { x: 1, y: 1 }, Dot { x: 1, y: 2 }],
            ],
        };
        proof {
            assert forall|s: State| #[trigger] table[s.index()]@ == shape(self.kind_of(), s) by {
                assert(table[s.index()]@ =~= shape(self.kind_of(), s));
            }
        }
        table
    }

    pub fn set_state(&mut self, state: State)
        ensures
            *final(self) == block_of(old(self).kind_of(), state),
    {
        match self {
            Block::I { state: s } => { *s = state; },
            Block::O { state: s } => { *s = state; },
            Block::T { state: s } => { *s = state; },
            Block::S { state: s } => { *s = state; },
            Block::Z { state: s } => { *s = state; },
            Block::J { state: s } => { *s = state; },
            Block::L { state: s } => { *s = state; },
        }
    }

    pub fn reset_rotation(&mut self)
        ensures
            *final(self) == block_of(old(self).kind_of(), State::Zero),
    {
        self.set_state(State::Zero);
    }

    pub fn color(&self) -> (rgb: (u8, u8, u8))
        ensures
            rgb == kind_rgb(self.kind_of()),
    {
        match self {
            Block::I { .. } => (0, 255, 255),
            Block::O { .. } => (255, 255, 0),
            Block::T { .. } => (153, 0, 255),
            Block::S { .. } => (0, 255, 0),
            Block::Z { .. } => (255, 0, 0),
            Block::J { .. } => (0, 0, 255),
            Block::L { .. } => (255, 170, 0),
        }
    }

    pub fn dots_by_state(&self) -> (dots: [Dot; 4])
        ensures
            dots@ == self.cells(),
            dots@.len() == 4,
    {
        let table = self.dots();
        match self.state() {
            State::Zero => { assert(State::Zero.index() == 0); table[0] },
            State::One => { assert(State::One.index() == 1); table[1] },
            State::Two => { assert(State::Two.index() == 2); table[2] },
            State::Three => { assert(State::Three.index() == 3); table[3] },
        }
    }

    pub fn new_i() -> (block: Block)
        ensures
            block == (Block::I { state: State::Zero }),
    {
        Block::I { state: State::Zero }
    }

    pub fn new_o() -> (block: Block)
        ensures
            block == (Block::O { state: State::Zero }),
    {
        Block::O { state: State::Zero }
    }

    pub fn new_t() -> (block: Block)
        ensures
            block == (Block::T { state: State::Zero }),
    {
        Block::T { state: State::Zero }
    }

    pub fn new_s() -> (block: Block)
        ensures
            block == (Block::S { state: State::Zero }),
    {
        Block::S { state: State::Zero }
    }

    pub fn new_z() -> (block: Block)
        ensures
            block == (Block::Z { state: State::Zero }),
    {
        Block::Z { state: State::Zero }
    }

    pub fn new_j() -> (block: Block)
        ensures
            block == (Block::J { state: State::Zero }),
    {
        Block::J { state: State::Zero }
    }

    pub fn new_l() -> (block: Block)
        ensures
            block == (Block::L { state: State::Zero }),
    {
        Block::L { state: State::Zero }
    }

}

impl Rotation {
    /// Turns the piece one step to the right and returns the state it left and
    /// the state it entered.
    pub fn rotate_right(tetromino: &mut Block) -> (turn: (State, State))
        ensures
            turn.0 == old(tetromino).state_of(),
            turn.1 == old(tetromino).state_of().right(),
            *final(tetromino) == block_of(old(tetromino).kind_of(), turn.1),
    {
        let from = *tetromino.state();
        let to = match from {
            State::Zero => State::One,
            State::One => State::Two,
            State::Two => State::Three,
            State::Three => State::Zero,
        };
        tetromino.set_state(to);
        (from, to)
    }

    /// Turns the piece one step to the left and returns the state it left and
    /// the state it entered.
    pub fn rotate_left(tetromino: &mut Block) -> (turn: (State, State))
        ensures
            turn.0 == old(tetromino).state_of(),
            turn.1 == old(tetromino).state_of().left(),
            *final(tetromino) == block_of(old(tetromino).kind_of(), turn.1),
    {
        let from = *tetromino.state();
        let to = match from {
            State::Zero => State::Three,
            State::One => State::Zero,
            State::Two => State::One,
            State::Three => State::Two,
        };
        tetromino.set_state(to);
        (from, to)
    }
}

/// Every catalog entry holds exactly four dots, each with both offsets
/// between 0 and 3.
pub proof fn lemma_shape_four_dots(kind: Kind, state: State)
    ensures
        shape(kind, state).len() == 4,
        forall|i: int| 0 <= i < 4 ==> 0 <= (#[trigger] shape(kind, state)[i]).x <= 3 && 0 <= shape(kind, state)[i].y <= 3,
{
}

/// The four dots of a catalog entry are pairwise different cells.
pub proof fn lemma_shape_dots_distinct(kind: Kind, state: State, i: int, j: int)
    requires
        0 <= i < j < 4,
    ensures
        shape(kind, state)[i] != shape(kind, state)[j],
{
}

/// The O piece covers the same four dots in every rotation state.
pub proof fn lemma_o_shape_is_fixed(s: State, t: State)
    ensures
        shape(Kind::O, s) == shape(Kind::O, t),
{
    assert(shape(Kind::O, s) =~= shape(Kind::O, t));
}

/// A left turn undoes a right turn and a right turn undoes a left turn; four
/// turns the same way come back to the start.
pub proof fn lemma_rotation_cycle(s: State)
    ensures
        s.right().left() == s,
        s.left().right() == s,
        s.right().right().right().right() == s,
        s.left().left().left().left() == s,
{
}

/// A piece is determined by its type and its rotation state.
pub proof fn lemma_block_of_parts(b: Block)
    ensures
        block_of(b.kind_of(), b.state_of()) == b,
{
}

} // verus!
