use tetris::tetromino::{Block, Kind, Rotation, State};

fn all_blocks() -> Vec<Block> {
    vec![
        Block::new_i(),
        Block::new_o(),
        Block::new_t(),
        Block::new_s(),
        Block::new_z(),
        Block::new_j(),
        Block::new_l(),
    ]
}

#[test]
fn initial_state_is_zero() {
    for block in all_blocks() {
        assert_eq!(*block.state(), State::Zero);
    }
}

#[test]
fn rotate_right_cycles() {
    let mut block = Block::new_t();
    assert_eq!(*block.state(), State::Zero);
    Rotation::rotate_right(&mut block);
    assert_eq!(*block.state(), State::One);
    Rotation::rotate_right(&mut block);
    assert_eq!(*block.state(), State::Two);
    Rotation::rotate_right(&mut block);
    assert_eq!(*block.state(), State::Three);
    Rotation::rotate_right(&mut block);
    assert_eq!(*block.state(), State::Zero);
}

#[test]
fn rotate_left_cycles() {
    let mut block = Block::new_t();
    assert_eq!(*block.state(), State::Zero);
    Rotation::rotate_left(&mut block);
    assert_eq!(*block.state(), State::Three);
    Rotation::rotate_left(&mut block);
    assert_eq!(*block.state(), State::Two);
    Rotation::rotate_left(&mut block);
    assert_eq!(*block.state(), State::One);
    Rotation::rotate_left(&mut block);
    assert_eq!(*block.state(), State::Zero);
}

#[test]
fn dots_by_state_returns_4_dots() {
    for block in all_blocks() {
        assert_eq!(block.dots_by_state().len(), 4);
    }
}

#[test]
fn o_piece_same_dots_all_states() {
    let mut block = Block::new_o();
    let dots_zero = block.dots_by_state();
    Rotation::rotate_right(&mut block);
    let dots_one = block.dots_by_state();
    Rotation::rotate_right(&mut block);
    let dots_two = block.dots_by_state();
    Rotation::rotate_right(&mut block);
    let dots_three = block.dots_by_state();

    for i in 0..4 {
        assert_eq!(dots_zero[i].x, dots_one[i].x);
        assert_eq!(dots_zero[i].y, dots_one[i].y);
        assert_eq!(dots_zero[i].x, dots_two[i].x);
        assert_eq!(dots_zero[i].y, dots_two[i].y);
        assert_eq!(dots_zero[i].x, dots_three[i].x);
        assert_eq!(dots_zero[i].y, dots_three[i].y);
    }
}

#[test]
fn reset_rotation_returns_to_zero() {
    let mut block = Block::new_s();
    Rotation::rotate_right(&mut block);
    Rotation::rotate_right(&mut block);
    assert_eq!(*block.state(), State::Two);
    block.reset_rotation();
    assert_eq!(*block.state(), State::Zero);
}

#[test]
fn every_piece_in_every_state_has_four_distinct_dots() {
    for mut block in all_blocks() {
        for _ in 0..4 {
            let dots = block.dots_by_state();
            assert_eq!(dots.len(), 4);
            for i in 0..4 {
                assert!((0..=3).contains(&dots[i].x));
                assert!((0..=3).contains(&dots[i].y));
                for j in (i + 1)..4 {
                    assert!(dots[i] != dots[j]);
                }
            }
            Rotation::rotate_right(&mut block);
        }
    }
}

#[test]
fn rotation_reports_the_turn() {
    let mut block = Block::new_j();
    assert_eq!(Rotation::rotate_right(&mut block), (State::Zero, State::One));
    assert_eq!(Rotation::rotate_left(&mut block), (State::One, State::Zero));
    assert_eq!(Rotation::rotate_left(&mut block), (State::Zero, State::Three));
    assert_eq!(block, Block::J { state: State::Three });
}

#[test]
fn set_state_keeps_the_type() {
    let mut block = Block::new_l();
    block.set_state(State::Two);
    assert_eq!(block.kind(), Kind::L);
    assert_eq!(*block.state(), State::Two);
}

#[test]
fn catalog_entries() {
    let i = Block::new_i().dots_by_state();
    assert_eq!([(i[0].x, i[0].y), (i[1].x, i[1].y), (i[2].x, i[2].y), (i[3].x, i[3].y)], [(0, 1), (1, 1), (2, 1), (3, 1)]);
    let mut t = Block::new_t();
    t.set_state(State::Three);
    let d = t.dots_by_state();
    assert_eq!([(d[0].x, d[0].y), (d[1].x, d[1].y), (d[2].x, d[2].y), (d[3].x, d[3].y)], [(1, 0), (0, 1), (1, 1), (1, 2)]);
    let mut l = Block::new_l();
    l.set_state(State::One);
    let d = l.dots_by_state();
    assert_eq!([(d[0].x, d[0].y), (d[1].x, d[1].y), (d[2].x, d[2].y), (d[3].x, d[3].y)], [(1, 0), (1, 1), (1, 2), (2, 2)]);
}

#[test]
fn colours() {
    assert_eq!(Block::new_i().color(), (0, 255, 255));
    assert_eq!(Block::new_o().color(), (255, 255, 0));
    assert_eq!(Block::new_t().color(), (153, 0, 255));
    assert_eq!(Block::new_s().color(), (0, 255, 0));
    assert_eq!(Block::new_z().color(), (255, 0, 0));
    assert_eq!(Block::new_j().color(), (0, 0, 255));
    assert_eq!(Block::new_l().color(), (255, 170, 0));
}
