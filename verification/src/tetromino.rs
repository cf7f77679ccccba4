use vstd::prelude::*;

use crate::consts::{MAX_H, W};
use crate::field::Pos;
use crate::shapes::{Rot, Shape, Shift};

verus! {

/// A tetromino: a shape, a rotation state (quarter turns clockwise from the spawn orientation)
/// and the bottom-left corner of the shape's bounding box.
///
/// A shape occupies four cells of its bounding box (4 x 4 for `I`, 2 x 2 for `O`, 3 x 3 for the
/// others); rotating turns the box a quarter turn about its centre.
#[derive(Clone, Copy, PartialEq, Eq, Structural, Hash, Debug)]
pub struct Tetromino {
    pub shape: Shape,
    pub rotation: u8,
    pub x: i32,
    pub y: i32,
}

/// Width (and height) of a shape's bounding box.
pub open spec fn box_size(shape: Shape) -> int {
    match shape {
        Shape::I => 4,
        Shape::O => 2,
        _ => 3,
    }
}

/// Cell `i` of a shape in its spawn orientation, in bounding-box coordinates.
pub open spec fn base_cell(shape: Shape, i: int) -> (int, int) {
    match shape {
        Shape::I => if i == 0 { (0, 2) } else if i == 1 { (1, 2) } else if i == 2 { (2, 2) } else { (3, 2) },
        Shape::J => if i == 0 { (0, 2) } else if i == 1 { (0, 1) } else if i == 2 { (1, 1) } else { (2, 1) },
        Shape::L => if i == 0 { (2, 2) } else if i == 1 { (0, 1) } else if i == 2 { (1, 1) } else { (2, 1) },
        Shape::O => if i == 0 { (0, 0) } else if i == 1 { (1, 0) } else if i == 2 { (0, 1) } else { (1, 1) },
        Shape::S => if i == 0 { (1, 2) } else if i == 1 { (2, 2) } else if i == 2 { (0, 1) } else { (1, 1) },
        Shape::T => if i == 0 { (1, 2) } else if i == 1 { (0, 1) } else if i == 2 { (1, 1) } else { (2, 1) },
        Shape::Z => if i == 0 { (0, 2) } else if i == 1 { (1, 2) } else if i == 2 { (1, 1) } else { (2, 1) },
    }
}

/// Cell `i` of a shape after `rotation` clockwise quarter turns of its bounding box.
pub open spec fn rotated_cell(shape: Shape, rotation: int, i: int) -> (int, int) {
    let s = box_size(shape);
    let (cx, cy) = base_cell(shape, i);
    if rotation == 0 {
        (cx, cy)
    } else if rotation == 1 {
        (cy, s - 1 - cx)
    } else if rotation == 2 {
        (s - 1 - cx, s - 1 - cy)
    } else {
        (s - 1 - cy, cx)
    }
}

/// The horizontal offsets tried, in order, when a rotation does not fit where it is.
pub open spec fn kick(k: int) -> int {
    if k == 0 { 0 } else if k == 1 { -1 } else if k == 2 { 1 } else if k == 3 { -2 } else { 2 }
}

pub open spec fn spawn_x(shape: Shape) -> int {
    match shape {
        Shape::O => 4,
        _ => 3,
    }
}

pub open spec fn spawn_y(shape: Shape) -> int {
    match shape {
        Shape::I => 18,
        Shape::O => 20,
        _ => 19,
    }
}

/// Keeps, in order, the tetrominoes that lie fully inside the walls and above the floor.
pub open spec fn keep_in_bounds(s: Seq<Tetromino>) -> Seq<Tetromino>
    decreases s.len(),
{
    if s.len() == 0 {
        Seq::empty()
    } else {
        let rest = keep_in_bounds(s.drop_last());
        if s.last().in_bounds() {
            rest.push(s.last())
        } else {
            rest
        }
    }
}

impl Tetromino {
    /// The bounds every tetromino of the game stays within.
    pub open spec fn wf(self) -> bool {
        &&& self.rotation < 4
        &&& -4 <= self.x <= W + 4
        &&& -4 <= self.y <= MAX_H
    }

    pub open spec fn block_x(self, i: int) -> int {
        self.x + rotated_cell(self.shape, self.rotation as int, i).0
    }

    pub open spec fn block_y(self, i: int) -> int {
        self.y + rotated_cell(self.shape, self.rotation as int, i).1
    }

    pub open spec fn block(self, i: int) -> Pos {
        Pos { x: self.block_x(i) as i32, y: self.block_y(i) as i32 }
    }

    /// The four occupied cells.
    pub open spec fn blocks(self) -> Seq<Pos> {
        seq![self.block(0), self.block(1), self.block(2), self.block(3)]
    }

    /// Whether one of the four cells is `(x, y)`.
    pub open spec fn covers(self, x: int, y: int) -> bool {
        ||| (self.block_x(0) == x && self.block_y(0) == y)
        ||| (self.block_x(1) == x && self.block_y(1) == y)
        ||| (self.block_x(2) == x && self.block_y(2) == y)
        ||| (self.block_x(3) == x && self.block_y(3) == y)
    }

    pub open spec fn block_in_bounds(self, i: int) -> bool {
        0 <= self.block_x(i) < W && 0 <= self.block_y(i)
    }

    /// All four cells are between the walls and above the floor.
    pub open spec fn in_bounds(self) -> bool {
        &&& self.block_in_bounds(0)
        &&& self.block_in_bounds(1)
        &&& self.block_in_bounds(2)
        &&& self.block_in_bounds(3)
    }

    pub open spec fn moved(self, dx: int, dy: int) -> Tetromino {
        Tetromino { shape: self.shape, rotation: self.rotation, x: (self.x + dx) as i32, y: (self.y + dy) as i32 }
    }

    pub open spec fn spec_down(self) -> Option<Tetromino> {
        let t = self.moved(0, -1);
        if t.in_bounds() {
            Some(t)
        } else {
            None
        }
    }

    pub open spec fn shift_dx(dir: Shift) -> int {
        match dir {
            Shift::Left => -1,
            Shift::Right => 1,
        }
    }

    pub open spec fn spec_shift(self, dir: Shift) -> Option<Tetromino> {
        let t = self.moved(Self::shift_dx(dir), 0);
        if t.in_bounds() {
            Some(t)
        } else {
            None
        }
    }

    pub open spec fn rotated(self, dir: Rot) -> Tetromino {
        let r = match dir {
            Rot::Cw => (self.rotation + 1) % 4,
            Rot::Ccw => (self.rotation + 3) % 4,
        };
        Tetromino { shape: self.shape, rotation: r as u8, x: self.x, y: self.y }
    }

    /// The rotated tetromino moved by each kick offset, in kick order.
    pub open spec fn rotation_candidates(self, dir: Rot) -> Seq<Tetromino> {
        Seq::new(5, |k: int| self.rotated(dir).moved(kick(k), 0))
    }

    pub open spec fn spec_rotation_options(self, dir: Rot) -> Seq<Tetromino> {
        keep_in_bounds(self.rotation_candidates(dir))
    }

    pub open spec fn spec_new(shape: Shape) -> Tetromino {
        Tetromino { shape, rotation: 0, x: spawn_x(shape) as i32, y: spawn_y(shape) as i32 }
    }
}

/// The offset of cell `i` of `shape` after `rotation` clockwise quarter turns.
pub fn cell_offset(shape: Shape, rotation: u8, i: usize) -> (res: (i32, i32))
    requires
        rotation < 4,
        i < 4,
    ensures
        res.0 == rotated_cell(shape, rotation as int, i as int).0,
        res.1 == rotated_cell(shape, rotation as int, i as int).1,
        0 <= res.0 < 4,
        0 <= res.1 < 4,
{
    let (s, cx, cy): (i32, i32, i32) = match shape {
        Shape::I => (4, if i == 0 { 0 } else if i == 1 { 1 } else if i == 2 { 2 } else { 3 }, 2),
        Shape::J => (3, if i == 0 { 0 } else if i == 1 { 0 } else if i == 2 { 1 } else { 2 }, if i == 0 { 2 } else { 1 }),
        Shape::L => (3, if i == 0 { 2 } else if i == 1 { 0 } else if i == 2 { 1 } else { 2 }, if i == 0 { 2 } else { 1 }),
        Shape::O => (2, if i == 0 { 0 } else if i == 1 { 1 } else if i == 2 { 0 } else { 1 }, if i < 2 { 0 } else { 1 }),
        Shape::S => (3, if i == 0 { 1 } else if i == 1 { 2 } else if i == 2 { 0 } else { 1 }, if i < 2 { 2 } else { 1 }),
        Shape::T => (3, if i == 0 { 1 } else if i == 1 { 0 } else if i == 2 { 1 } else { 2 }, if i == 0 { 2 } else { 1 }),
        Shape::Z => (3, if i == 0 { 0 } else if i == 1 { 1 } else if i == 2 { 1 } else { 2 }, if i < 2 { 2 } else { 1 }),
    };
    if rotation == 0 {
        (cx, cy)
    } else if rotation == 1 {
        (cy, s - 1 - cx)
    } else if rotation == 2 {
        (s - 1 - cx, s - 1 - cy)
    } else {
        (s - 1 - cy, cx)
    }
}

impl Tetromino {
    /// A tetromino of `shape` in its spawn position at the top of the visible field.
    pub fn new(shape: Shape) -> (res: Tetromino)
        ensures
            res == Tetromino::spec_new(shape),
            res.wf(),
    {
        let (x, y): (i32, i32) = match shape {
            Shape::I => (3, 18),
            Shape::O => (4, 20),
            _ => (3, 19),
        };
        Tetromino { shape, rotation: 0, x, y }
    }

    /// A tetromino of `shape` in spawn orientation with its bounding box at the origin, for
    /// drawing in a preview window.
    pub fn for_preview(shape: Shape) -> (res: Tetromino)
        ensures
            res == (Tetromino { shape, rotation: 0, x: 0, y: 0 }),
            res.wf(),
    {
        Tetromino { shape, rotation: 0, x: 0, y: 0 }
    }

    /// The same tetromino turned to `rotation` clockwise quarter turns from spawn orientation.
    pub fn with_rotation(&self, rotation: u8) -> (res: Tetromino)
        requires
            self.wf(),
            rotation < 4,
        ensures
            res == (Tetromino { rotation, ..*self }),
            res.wf(),
    {
        Tetromino { rotation, ..*self }
    }

    /// The four occupied cells.
    pub fn get_blocks(&self) -> (res: [Pos; 4])
        requires
            self.wf(),
        ensures
            res@ == self.blocks(),
    {
        let (x0, y0) = cell_offset(self.shape, self.rotation, 0);
        let (x1, y1) = cell_offset(self.shape, self.rotation, 1);
        let (x2, y2) = cell_offset(self.shape, self.rotation, 2);
        let (x3, y3) = cell_offset(self.shape, self.rotation, 3);
        let res = [
            Pos { x: self.x + x0, y: self.y + y0 },
            Pos { x: self.x + x1, y: self.y + y1 },
            Pos { x: self.x + x2, y: self.y + y2 },
            Pos { x: self.x + x3, y: self.y + y3 },
        ];
        assert(res@ =~= self.blocks());
        res
    }

    /// Whether `p` is one of the four occupied cells.
    pub fn contains(&self, p: &Pos) -> (res: bool)
        requires
            self.wf(),
        ensures
            res == self.covers(p.x as int, p.y as int),
    {
        let blocks = self.get_blocks();
        (blocks[0].x == p.x && blocks[0].y == p.y) || (blocks[1].x == p.x && blocks[1].y == p.y)
            || (blocks[2].x == p.x && blocks[2].y == p.y) || (blocks[3].x == p.x && blocks[3].y
            == p.y)
    }

    fn is_in_bounds(&self) -> (res: bool)
        requires
            self.wf(),
        ensures
            res == self.in_bounds(),
    {
        let blocks = self.get_blocks();
        !blocks[0].out_of_bounds() && !blocks[1].out_of_bounds() && !blocks[2].out_of_bounds()
            && !blocks[3].out_of_bounds()
    }

    /// One row lower, or `None` when that would cross the floor.
    pub fn down(&self) -> (res: Option<Tetromino>)
        requires
            self.wf(),
        ensures
            res == self.spec_down(),
            res matches Some(t) ==> t.wf(),
    {
        if self.y <= -4 {
            return None;
        }
        let t = Tetromino { y: self.y - 1, ..*self };
        if t.is_in_bounds() {
            Some(t)
        } else {
            None
        }
    }

    /// One column to the side, or `None` when that would cross a wall.
    pub fn shift(&self, dir: Shift) -> (res: Option<Tetromino>)
        requires
            self.wf(),
        ensures
            res == self.spec_shift(dir),
            res matches Some(t) ==> t.wf(),
    {
        let dx: i32 = match dir {
            Shift::Left => -1,
            Shift::Right => 1,
        };
        if self.x + dx < -4 || self.x + dx > W + 4 {
            return None;
        }
        let t = Tetromino { x: self.x + dx, ..*self };
        if t.is_in_bounds() {
            Some(t)
        } else {
            None
        }
    }

    /// The placements to try, in order, for a rotation: the rotated tetromino moved by each kick
    /// offset, keeping those inside the walls and above the floor.
    pub fn rotation_options(&self, dir: Rot) -> (res: Vec<Tetromino>)
        requires
            self.wf(),
        ensures
            res@ == self.spec_rotation_options(dir),
            forall|i: int| 0 <= i < res@.len() ==> (#[trigger] res@[i]).wf(),
    {
        let rotation = match dir {
            Rot::Cw => (self.rotation + 1) % 4,
            Rot::Ccw => (self.rotation + 3) % 4,
        };
        let kicks: [i32; 5] = [0, -1, 1, -2, 2];
        let ghost cands = self.rotation_candidates(dir);
        let mut res: Vec<Tetromino> = Vec::new();
        let mut k: usize = 0;
        while k < 5
            invariant
                k <= 5,
                self.wf(),
                rotation < 4,
                cands == self.rotation_candidates(dir),
                rotation == self.rotated(dir).rotation,
                kicks@ == seq![0i32, -1i32, 1i32, -2i32, 2i32],
                res@ == keep_in_bounds(cands.take(k as int)),
                forall|i: int| 0 <= i < res@.len() ==> (#[trigger] res@[i]).wf(),
            decreases 5 - k,
        {
            let t = Tetromino { shape: self.shape, rotation, x: self.x + kicks[k], y: self.y };
            assert(cands.take(k + 1).drop_last() =~= cands.take(k as int));
            assert(t == cands[k as int]);
            if t.x >= -4 && t.x <= W + 4 && t.is_in_bounds() {
                res.push(t);
            } else {
                assert(!t.in_bounds()) by {
                    if t.x < -4 {
                        assert(t.block_x(0) < 0);
                    }
                    if t.x > W + 4 {
                        assert(t.block_x(0) >= W);
                    }
                }
            }
            k = k + 1;
        }
        assert(cands.take(5) =~= cands);
        res
    }
}

/// The opposite horizontal direction.
pub open spec fn opposite(dir: Shift) -> Shift {
    match dir {
        Shift::Left => Shift::Right,
        Shift::Right => Shift::Left,
    }
}

/// Four clockwise quarter turns, or a clockwise turn followed by a counter-clockwise one, give
/// back the tetromino.
pub proof fn lemma_rotation_round_trip(t: Tetromino)
    requires
        t.rotation < 4,
    ensures
        t.rotated(Rot::Cw).rotated(Rot::Cw).rotated(Rot::Cw).rotated(Rot::Cw) == t,
        t.rotated(Rot::Cw).rotated(Rot::Ccw) == t,
        t.rotated(Rot::Ccw).rotated(Rot::Cw) == t,
{
}

/// A shift that succeeds can be undone by the opposite shift.
pub proof fn lemma_shift_round_trip(t: Tetromino, dir: Shift)
    requires
        t.wf(),
        t.in_bounds(),
        t.spec_shift(dir) is Some,
    ensures
        t.spec_shift(dir).unwrap().spec_shift(opposite(dir)) == Some(t),
{
}

/// A successful down move lowers the tetromino by one row and changes nothing else.
pub proof fn lemma_down_lowers(t: Tetromino)
    requires
        t.wf(),
        t.spec_down() is Some,
    ensures
        t.spec_down().unwrap() == (Tetromino { y: (t.y - 1) as i32, ..t }),
        t.spec_down().unwrap().wf(),
{
    assert(t.spec_down().unwrap().block_y(0) >= 0);
}

} // verus!
