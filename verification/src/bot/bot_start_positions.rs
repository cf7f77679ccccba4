use vstd::prelude::*;

use crate::bot::compute_types::{ShapePositionConfig, ShapeStartingPositions, TetrominoPositions};
use crate::shapes::Shape;
use crate::tetromino::Tetromino;

verus! {

/// The index of each shape in the bot's tables.
pub open spec fn shape_index(shape: Shape) -> u8 {
    match shape {
        Shape::I => 0,
        Shape::J => 1,
        Shape::L => 2,
        Shape::O => 3,
        Shape::S => 4,
        Shape::T => 5,
        Shape::Z => 6,
    }
}

/// The shape with a given table index.
pub open spec fn index_shape(idx: u8) -> Option<Shape> {
    if idx == 0 {
        Some(Shape::I)
    } else if idx == 1 {
        Some(Shape::J)
    } else if idx == 2 {
        Some(Shape::L)
    } else if idx == 3 {
        Some(Shape::O)
    } else if idx == 4 {
        Some(Shape::S)
    } else if idx == 5 {
        Some(Shape::T)
    } else if idx == 6 {
        Some(Shape::Z)
    } else {
        None
    }
}

/// The bot places a shape from its spawn position, turned the given number of quarter turns.
pub open spec fn spec_bot_start_position(shape: Shape, cw_rotations: int) -> Tetromino {
    Tetromino { rotation: cw_rotations as u8, ..Tetromino::spec_new(shape) }
}

/// Shape indices and table indices convert back and forth.
pub proof fn lemma_shape_index_round_trip(shape: Shape, idx: u8)
    ensures
        index_shape(shape_index(shape)) == Some(shape),
        idx < 7 ==> (index_shape(idx) matches Some(s) && shape_index(s) == idx),
        idx >= 7 ==> index_shape(idx) is None,
{
}

pub fn shape_to_idx(shape: Shape) -> (res: u8)
    ensures
        res == shape_index(shape),
        res < 7,
{
    match shape {
        Shape::I => 0,
        Shape::J => 1,
        Shape::L => 2,
        Shape::O => 3,
        Shape::S => 4,
        Shape::T => 5,
        Shape::Z => 6,
    }
}

pub fn idx_to_shape(idx: u8) -> (res: Option<Shape>)
    ensures
        res == index_shape(idx),
{
    if idx == 0 {
        Some(Shape::I)
    } else if idx == 1 {
        Some(Shape::J)
    } else if idx == 2 {
        Some(Shape::L)
    } else if idx == 3 {
        Some(Shape::O)
    } else if idx == 4 {
        Some(Shape::S)
    } else if idx == 5 {
        Some(Shape::T)
    } else if idx == 6 {
        Some(Shape::Z)
    } else {
        None
    }
}

/// Where the bot starts placing `shape` turned `cw_rotations` quarter turns clockwise.
pub fn bot_start_position(shape: Shape, cw_rotations: usize) -> (res: Tetromino)
    requires
        cw_rotations < 4,
    ensures
        res == spec_bot_start_position(shape, cw_rotations as int),
        res.wf(),
{
    Tetromino::new(shape).with_rotation(cw_rotations as u8)
}

impl TetrominoPositions {
    /// The four cells of `t` as byte pairs.
    pub fn from_tetromino(t: Tetromino) -> (res: Self)
        requires
            t.wf(),
        ensures
            forall|i: int|
                0 <= i < 4 ==> #[trigger] res.pos@[i]@ == seq![t.block_x(i) as u8, t.block_y(i) as u8],
    {
        let b = t.get_blocks();
        let res = TetrominoPositions {
            pos: [
                [b[0].x as u8, b[0].y as u8],
                [b[1].x as u8, b[1].y as u8],
                [b[2].x as u8, b[2].y as u8],
                [b[3].x as u8, b[3].y as u8],
            ],
        };
        assert forall|i: int| 0 <= i < 4 implies #[trigger] res.pos@[i]@ == seq![
            t.block_x(i) as u8,
            t.block_y(i) as u8,
        ] by {
            assert(res.pos@[i]@ =~= seq![t.block_x(i) as u8, t.block_y(i) as u8]);
        }
        res
    }
}

/// The starting positions of every shape and rotation, in shape index order.
pub fn shape_position_config() -> (res: ShapePositionConfig)
    ensures
        forall|s: int, r: int, i: int|
            0 <= s < 7 && 0 <= r < 4 && 0 <= i < 4 ==> #[trigger] res.starting_positions@[s].bot_positions@[r].pos@[i]@
                    == seq![
                    spec_bot_start_position(index_shape(s as u8).unwrap(), r).block_x(i) as u8,
                    spec_bot_start_position(index_shape(s as u8).unwrap(), r).block_y(i) as u8,
                ],
{
    let p0 = starting_positions_of(Shape::I);
    let p1 = starting_positions_of(Shape::J);
    let p2 = starting_positions_of(Shape::L);
    let p3 = starting_positions_of(Shape::O);
    let p4 = starting_positions_of(Shape::S);
    let p5 = starting_positions_of(Shape::T);
    let p6 = starting_positions_of(Shape::Z);
    let res = ShapePositionConfig { starting_positions: [p0, p1, p2, p3, p4, p5, p6] };
    assert forall|s: int, r: int, i: int|
        0 <= s < 7 && 0 <= r < 4 && 0 <= i < 4 implies #[trigger] res.starting_positions@[s].bot_positions@[r].pos@[i]@
            == seq![
            spec_bot_start_position(index_shape(s as u8).unwrap(), r).block_x(i) as u8,
            spec_bot_start_position(index_shape(s as u8).unwrap(), r).block_y(i) as u8,
        ] by {
        let p = if s == 0 { p0 } else if s == 1 { p1 } else if s == 2 { p2 } else if s == 3 { p3 } else if s == 4 { p4 } else if s == 5 { p5 } else { p6 };
        assert(res.starting_positions@[s] == p);
        assert(p.bot_positions@[r].pos@[i]@ == seq![
            spec_bot_start_position(index_shape(s as u8).unwrap(), r).block_x(i) as u8,
            spec_bot_start_position(index_shape(s as u8).unwrap(), r).block_y(i) as u8,
        ]);
    }
    res
}

fn starting_positions_of(shape: Shape) -> (res: ShapeStartingPositions)
    ensures
        forall|r: int, i: int|
            0 <= r < 4 && 0 <= i < 4 ==> #[trigger] res.bot_positions@[r].pos@[i]@ == seq![
                spec_bot_start_position(shape, r).block_x(i) as u8,
                spec_bot_start_position(shape, r).block_y(i) as u8,
            ],
        forall|i: int|
            0 <= i < 4 ==> #[trigger] res.player_position.pos@[i]@ == seq![
                Tetromino::spec_new(shape).block_x(i) as u8,
                Tetromino::spec_new(shape).block_y(i) as u8,
            ],
{
    let p0 = TetrominoPositions::from_tetromino(bot_start_position(shape, 0));
    let p1 = TetrominoPositions::from_tetromino(bot_start_position(shape, 1));
    let p2 = TetrominoPositions::from_tetromino(bot_start_position(shape, 2));
    let p3 = TetrominoPositions::from_tetromino(bot_start_position(shape, 3));
    let player = TetrominoPositions::from_tetromino(Tetromino::new(shape));
    let res = ShapeStartingPositions { bot_positions: [p0, p1, p2, p3], player_position: player };
    assert forall|r: int, i: int| 0 <= r < 4 && 0 <= i < 4 implies #[trigger] res.bot_positions@[r].pos@[i]@
        == seq![
        spec_bot_start_position(shape, r).block_x(i) as u8,
        spec_bot_start_position(shape, r).block_y(i) as u8,
    ] by {
        if r == 0 {
            assert(res.bot_positions@[r] == p0);
        } else if r == 1 {
            assert(res.bot_positions@[r] == p1);
        } else if r == 2 {
            assert(res.bot_positions@[r] == p2);
        } else {
            assert(res.bot_positions@[r] == p3);
        }
    }
    res
}

} // verus!
