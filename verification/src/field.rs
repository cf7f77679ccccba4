use vstd::prelude::*;

use crate::consts::{MAX_H, W};

verus! {

/// A cell coordinate: `x` grows to the right, `y` grows upwards from the floor.
#[derive(Clone, Copy, PartialEq, Eq, Structural, Hash, Debug)]
pub struct Pos {
    pub x: i32,
    pub y: i32,
}

impl Pos {
    /// Left of, right of or below the field (there is no ceiling).
    pub open spec fn spec_out_of_bounds(self) -> bool {
        self.x < 0 || self.x >= W || self.y < 0
    }

    /// Inside the stored rows of the field.
    pub open spec fn spec_is_safe(self) -> bool {
        0 <= self.x < W && 0 <= self.y < MAX_H
    }

    pub fn out_of_bounds(&self) -> (res: bool)
        ensures
            res == self.spec_out_of_bounds(),
    {
        self.x < 0 || self.x >= W || self.y < 0
    }

    pub fn is_safe(&self) -> (res: bool)
        ensures
            res == self.spec_is_safe(),
    {
        (!self.out_of_bounds()) && self.y < MAX_H
    }
}

} // verus!

use crate::bitmap_field::BitmapField;
use crate::consts::NUM_POSITIONS;
use crate::consts::{MAX_H_US, W_US};
use crate::shapes::Shape;
use crate::tetromino::{rotated_cell, Tetromino};

verus! {

/// What fills an occupied cell.
#[derive(Clone, Copy, PartialEq, Eq, Structural, Hash, Debug)]
pub enum OccupiedBlock {
    FromShape(Shape),
    FromGarbage,
}

/// A row of the field, left to right.
pub type Row = [Option<OccupiedBlock>; W_US];

/// The settled blocks of a game, row by row from the floor up.
#[derive(Clone, Copy, Debug)]
pub struct Field {
    occupied: [Row; MAX_H_US],
}

impl View for Field {
    type V = Seq<Seq<Option<OccupiedBlock>>>;

    closed spec fn view(&self) -> Seq<Seq<Option<OccupiedBlock>>> {
        Seq::new(MAX_H_US as nat, |y: int| self.occupied[y]@)
    }
}

/// The rows of a field: `MAX_H` rows of `W` cells each.
pub open spec fn wf_rows(rows: Seq<Seq<Option<OccupiedBlock>>>) -> bool {
    &&& rows.len() == MAX_H
    &&& forall|y: int| 0 <= y < MAX_H ==> (#[trigger] rows[y]).len() == W
}

/// The content of cell `(x, y)`; nothing outside the stored rows.
pub open spec fn cell_at(rows: Seq<Seq<Option<OccupiedBlock>>>, x: int, y: int) -> Option<
    OccupiedBlock,
> {
    if 0 <= x < W && 0 <= y < MAX_H {
        rows[y][x]
    } else {
        None
    }
}

/// Writes `v` into cell `(x, y)` when it is one of the stored cells.
pub open spec fn set_cell(
    rows: Seq<Seq<Option<OccupiedBlock>>>,
    x: int,
    y: int,
    v: Option<OccupiedBlock>,
) -> Seq<Seq<Option<OccupiedBlock>>> {
    if 0 <= x < W && 0 <= y < MAX_H {
        rows.update(y, rows[y].update(x, v))
    } else {
        rows
    }
}

/// Number of occupied cells of a row.
pub open spec fn count_occupied(r: Seq<Option<OccupiedBlock>>) -> nat
    decreases r.len(),
{
    if r.len() == 0 {
        0
    } else {
        count_occupied(r.drop_last()) + if r.last() is Some { 1nat } else { 0nat }
    }
}

pub open spec fn row_full(r: Seq<Option<OccupiedBlock>>) -> bool {
    count_occupied(r) == W
}

pub open spec fn row_empty(r: Seq<Option<OccupiedBlock>>) -> bool {
    count_occupied(r) == 0
}

pub open spec fn empty_row() -> Seq<Option<OccupiedBlock>> {
    Seq::new(W as nat, |x: int| None)
}

/// The row that rises from the floor as garbage: full except the rightmost cell.
pub open spec fn garbage_row() -> Seq<Option<OccupiedBlock>> {
    Seq::new(W as nat, |x: int| if x < W - 1 { Some(OccupiedBlock::FromGarbage) } else { None })
}

/// The index of the lowest empty row at or above `y`, or the number of rows.
pub open spec fn first_empty_from(rows: Seq<Seq<Option<OccupiedBlock>>>, y: int) -> int
    decreases rows.len() - y,
{
    if y < 0 || y >= rows.len() {
        rows.len() as int
    } else if row_empty(rows[y]) {
        y
    } else {
        first_empty_from(rows, y + 1)
    }
}

/// The rows that are not full, in order.
pub open spec fn keep_unfilled(rows: Seq<Seq<Option<OccupiedBlock>>>) -> Seq<
    Seq<Option<OccupiedBlock>>,
>
    decreases rows.len(),
{
    if rows.len() == 0 {
        Seq::empty()
    } else if row_full(rows.last()) {
        keep_unfilled(rows.drop_last())
    } else {
        keep_unfilled(rows.drop_last()).push(rows.last())
    }
}

/// Line clearing: the rows below the lowest empty row lose their full rows and the rest settle
/// downwards; empty rows take the place of the removed ones; everything from the lowest empty
/// row up stays where it is.
pub open spec fn cleared_rows(rows: Seq<Seq<Option<OccupiedBlock>>>) -> Seq<
    Seq<Option<OccupiedBlock>>,
> {
    let k = first_empty_from(rows, 0);
    let kept = keep_unfilled(rows.take(k));
    kept + Seq::new((k - kept.len()) as nat, |i: int| empty_row()) + rows.skip(k)
}

/// The number of full rows removed by line clearing.
pub open spec fn lines_cleared(rows: Seq<Seq<Option<OccupiedBlock>>>) -> int {
    let k = first_empty_from(rows, 0);
    k - keep_unfilled(rows.take(k)).len()
}

/// The four cells of `t` written into the field as part of `t`'s shape.
pub open spec fn placed(rows: Seq<Seq<Option<OccupiedBlock>>>, t: Tetromino) -> Seq<
    Seq<Option<OccupiedBlock>>,
> {
    let v = Some(OccupiedBlock::FromShape(t.shape));
    set_cell(
        set_cell(
            set_cell(set_cell(rows, t.block_x(0), t.block_y(0), v), t.block_x(1), t.block_y(1), v),
            t.block_x(2),
            t.block_y(2),
            v,
        ),
        t.block_x(3),
        t.block_y(3),
        v,
    )
}

/// No cell of `t` is occupied.
pub open spec fn fits(rows: Seq<Seq<Option<OccupiedBlock>>>, t: Tetromino) -> bool {
    &&& cell_at(rows, t.block_x(0), t.block_y(0)) is None
    &&& cell_at(rows, t.block_x(1), t.block_y(1)) is None
    &&& cell_at(rows, t.block_x(2), t.block_y(2)) is None
    &&& cell_at(rows, t.block_x(3), t.block_y(3)) is None
}

pub open spec fn block_rests(rows: Seq<Seq<Option<OccupiedBlock>>>, t: Tetromino, i: int) -> bool {
    t.block_y(i) - 1 < 0 || cell_at(rows, t.block_x(i), t.block_y(i) - 1) is Some
}

/// Some cell of `t` sits on the floor or on an occupied cell.
pub open spec fn rests(rows: Seq<Seq<Option<OccupiedBlock>>>, t: Tetromino) -> bool {
    ||| block_rests(rows, t, 0)
    ||| block_rests(rows, t, 1)
    ||| block_rests(rows, t, 2)
    ||| block_rests(rows, t, 3)
}

/// `t` moved down for as long as the move stays above the floor and fits.
pub open spec fn dropped(rows: Seq<Seq<Option<OccupiedBlock>>>, t: Tetromino) -> Tetromino
    decreases t.y + 8,
{
    if t.y <= -4 {
        t
    } else {
        match t.spec_down() {
            Some(n) => if fits(rows, n) {
                dropped(rows, n)
            } else {
                t
            },
            None => t,
        }
    }
}

fn empty_row_value() -> (res: Row)
    ensures
        res@ == empty_row(),
{
    let res: Row = [None, None, None, None, None, None, None, None, None, None];
    assert(res@ =~= empty_row());
    res
}

/// Number of occupied cells of a row.
fn count_row(row: &Row) -> (res: usize)
    ensures
        res == count_occupied(row@),
        res <= W,
{
    let mut count: usize = 0;
    let mut x: usize = 0;
    while x < W_US
        invariant
            x <= W_US,
            count == count_occupied(row@.take(x as int)),
            count <= x,
        decreases W_US - x,
    {
        assert(row@.take(x + 1).drop_last() =~= row@.take(x as int));
        if row[x].is_some() {
            count = count + 1;
        }
        x = x + 1;
    }
    assert(row@.take(W_US as int) =~= row@);
    count
}

impl Default for Field {
    fn default() -> (res: Self)
        ensures
            res@ == Seq::new(MAX_H as nat, |y: int| empty_row()),
    {
        Self::new()
    }
}

impl Field {
    /// The rows of any field have the field's dimensions.
    pub proof fn lemma_wf(&self)
        ensures
            wf_rows(self@),
    {
    }

    /// An empty field.
    pub fn new() -> (res: Field)
        ensures
            res@ == Seq::new(MAX_H as nat, |y: int| empty_row()),
            wf_rows(res@),
    {
        let row: Row = empty_row_value();
        let res = Field { occupied: [row; MAX_H_US] };
        assert(res@ =~= Seq::new(MAX_H as nat, |y: int| empty_row()));
        res
    }

    /// A field where exactly the listed stored cells hold garbage; positions outside the stored
    /// rows are ignored.
    pub fn with_initial_occupied(occupied: Vec<Pos>) -> (res: Field)
        ensures
            forall|x: int, y: int|
                0 <= x < W && 0 <= y < MAX_H ==> #[trigger] cell_at(res@, x, y) == if exists|i: int|
                    0 <= i < occupied@.len() && occupied@[i].x == x && occupied@[i].y == y {
                    Some(OccupiedBlock::FromGarbage)
                } else {
                    None
                },
    {
        let mut res = Self::new();
        let mut k: usize = 0;
        while k < occupied.len()
            invariant
                k <= occupied@.len(),
                wf_rows(res@),
                forall|x: int, y: int|
                    0 <= x < W && 0 <= y < MAX_H ==> #[trigger] cell_at(res@, x, y) == if exists|i: int|
                        0 <= i < k && occupied@[i].x == x && occupied@[i].y == y {
                        Some(OccupiedBlock::FromGarbage)
                    } else {
                        None
                    },
            decreases occupied@.len() - k,
        {
            let p = occupied[k];
            let ghost old_res = res@;
            res.set_safe(&p, Some(OccupiedBlock::FromGarbage));
            proof {
                assert forall|x: int, y: int| 0 <= x < W && 0 <= y < MAX_H implies #[trigger] cell_at(
                    res@,
                    x,
                    y,
                ) == if exists|i: int|
                    0 <= i < k + 1 && occupied@[i].x == x && occupied@[i].y == y {
                    Some(OccupiedBlock::FromGarbage)
                } else {
                    None
                } by {
                    if p.x == x && p.y == y {
                        assert(occupied@[k as int].x == x && occupied@[k as int].y == y);
                    } else {
                        assert(cell_at(res@, x, y) == cell_at(old_res, x, y));
                        if exists|i: int| 0 <= i < k && occupied@[i].x == x && occupied@[i].y == y {
                            let i = choose|i: int|
                                0 <= i < k && occupied@[i].x == x && occupied@[i].y == y;
                            assert(0 <= i < k + 1 && occupied@[i].x == x && occupied@[i].y == y);
                        }
                        if exists|i: int| 0 <= i < k + 1 && occupied@[i].x == x && occupied@[i].y == y {
                            let i = choose|i: int|
                                0 <= i < k + 1 && occupied@[i].x == x && occupied@[i].y == y;
                            assert(i < k);
                        }
                    }
                }
            }
            k = k + 1;
        }
        res
    }

    /// The content of `pos`; `None` outside the stored rows.
    pub fn get_occupied_block(&self, pos: &Pos) -> (res: Option<OccupiedBlock>)
        ensures
            res == cell_at(self@, pos.x as int, pos.y as int),
    {
        if pos.is_safe() {
            self.occupied[pos.y as usize][pos.x as usize]
        } else {
            None
        }
    }

    fn set_row(&mut self, y: usize, row: Row)
        requires
            y < MAX_H_US,
        ensures
            final(self)@ == old(self)@.update(y as int, row@),
    {
        self.occupied[y] = row;
        assert(self@ =~= old(self)@.update(y as int, row@));
    }

    fn get_row(&self, y: usize) -> (res: Row)
        requires
            y < MAX_H_US,
        ensures
            res@ == self@[y as int],
    {
        self.occupied[y]
    }

    fn set_safe(&mut self, p: &Pos, v: Option<OccupiedBlock>)
        ensures
            final(self)@ == set_cell(old(self)@, p.x as int, p.y as int, v),
    {
        if p.is_safe() {
            let mut row = self.get_row(p.y as usize);
            row[p.x as usize] = v;
            assert(row@ =~= old(self)@[p.y as int].update(p.x as int, v));
            self.set_row(p.y as usize, row);
        }
    }

    /// No cell of `t` is occupied.
    pub fn is_valid(&self, t: &Tetromino) -> (res: bool)
        requires
            t.wf(),
        ensures
            res == fits(self@, *t),
    {
        let blocks = t.get_blocks();
        let mut i: usize = 0;
        while i < 4
            invariant
                i <= 4,
                t.wf(),
                blocks@ == t.blocks(),
                forall|j: int| 0 <= j < i ==> cell_at(self@, t.block_x(j), t.block_y(j)) is None,
            decreases 4 - i,
        {
            if self.get_occupied_block(&blocks[i]).is_some() {
                return false;
            }
            i = i + 1;
        }
        true
    }

    /// Some cell of `t` sits on the floor or on an occupied cell.
    pub fn is_lockable(&self, t: &Tetromino) -> (res: bool)
        requires
            t.wf(),
        ensures
            res == rests(self@, *t),
    {
        let blocks = t.get_blocks();
        let mut i: usize = 0;
        while i < 4
            invariant
                i <= 4,
                t.wf(),
                blocks@ == t.blocks(),
                forall|j: int| 0 <= j < i ==> !block_rests(self@, *t, j),
            decreases 4 - i,
        {
            let p = blocks[i];
            let test_pos = Pos { x: p.x, y: p.y - 1 };
            if test_pos.y < 0 || self.get_occupied_block(&test_pos).is_some() {
                return true;
            }
            i = i + 1;
        }
        false
    }

    /// Where `active` lands when moved straight down.
    pub fn find_shadow(&self, active: &Tetromino) -> (res: Tetromino)
        requires
            active.wf(),
        ensures
            res == dropped(self@, *active),
            res.wf(),
    {
        let mut shadow = *active;
        loop
            invariant
                shadow.wf(),
                dropped(self@, shadow) == dropped(self@, *active),
            ensures
                shadow.wf(),
                shadow == dropped(self@, *active),
            decreases shadow.y + 8,
        {
            match shadow.down() {
                Some(new_shadow) => {
                    if !self.is_valid(&new_shadow) {
                        break ;
                    }
                    assert(shadow.y > -4) by {
                        if shadow.y <= -4 {
                            assert(new_shadow.block_y(0) < 0);
                        }
                    }
                    shadow = new_shadow;
                },
                None => {
                    break ;
                },
            }
        }
        shadow
    }

    /// Writes `t` into the field and clears lines; returns the number of lines cleared.
    #[verifier::rlimit(30)]
    pub fn apply_tetrominio(&mut self, t: &Tetromino) -> (res: i32)
        requires
            t.wf(),
        ensures
            final(self)@ == cleared_rows(placed(old(self)@, *t)),
            res == lines_cleared(placed(old(self)@, *t)),
            0 <= res <= MAX_H,
    {
        let blocks = t.get_blocks();
        let v = Some(OccupiedBlock::FromShape(t.shape));
        self.set_safe(&blocks[0], v);
        self.set_safe(&blocks[1], v);
        self.set_safe(&blocks[2], v);
        self.set_safe(&blocks[3], v);
        let ghost orig = self@;
        assert(orig == placed(old(self)@, *t));
        let empty = empty_row_value();
        let mut num_to_drop: usize = 0;
        let mut y: usize = 0;
        while y < MAX_H_US
            invariant
                y <= MAX_H_US,
                num_to_drop <= y,
                wf_rows(orig),
                first_empty_from(orig, 0) == first_empty_from(orig, y as int),
                keep_unfilled(orig.take(y as int)).len() + num_to_drop == y,
                empty@ == empty_row(),
                self@ == keep_unfilled(orig.take(y as int)) + Seq::new(
                    num_to_drop as nat,
                    |i: int| empty_row(),
                ) + orig.skip(y as int),
            ensures
                self@ == cleared_rows(orig),
                num_to_drop == lines_cleared(orig),
            decreases MAX_H_US - y,
        {
            let ghost kept = keep_unfilled(orig.take(y as int));
            let ghost empties = Seq::new(num_to_drop as nat, |i: int| empty_row());
            assert(self@[y as int] == orig[y as int]);
            assert(orig.take(y + 1).drop_last() =~= orig.take(y as int));
            let row_y = self.get_row(y);
            let num_occupied = count_row(&row_y);
            if num_occupied == W_US {
                num_to_drop = num_to_drop + 1;
                self.set_row(y, empty);
                proof {
                    assert(self@ =~= keep_unfilled(orig.take(y + 1)) + Seq::new(
                        num_to_drop as nat,
                        |i: int| empty_row(),
                    ) + orig.skip(y + 1));
                }
            } else if num_occupied == 0 {
                proof {
                    assert(first_empty_from(orig, y as int) == y);
                    assert(self@ =~= cleared_rows(orig));
                }
                break ;
            } else {
                if num_to_drop > 0 {
                    let row = self.get_row(y);
                    self.set_row(y - num_to_drop, row);
                    self.set_row(y, empty);
                }
                proof {
                    assert(self@ =~= keep_unfilled(orig.take(y + 1)) + Seq::new(
                        num_to_drop as nat,
                        |i: int| empty_row(),
                    ) + orig.skip(y + 1));
                }
            }
            y = y + 1;
        }
        proof {
            if y == MAX_H_US {
                assert(orig.take(MAX_H as int) =~= orig);
                assert(self@ =~= cleared_rows(orig));
            }
        }
        num_to_drop as i32
    }

    /// Pushes every row up by one, dropping the top row, and fills the bottom row with garbage.
    pub fn apply_garbage(&mut self)
        ensures
            final(self)@ == seq![garbage_row()] + old(self)@.take(MAX_H - 1),
    {
        let mut y: usize = MAX_H_US - 1;
        while y >= 1
            invariant
                0 <= y < MAX_H_US,
                forall|j: int| 0 <= j <= y ==> #[trigger] self@[j] == old(self)@[j],
                forall|j: int| y < j < MAX_H ==> #[trigger] self@[j] == old(self)@[j - 1],
            decreases y,
        {
            let row = self.get_row(y - 1);
            self.set_row(y, row);
            y = y - 1;
        }
        let mut row = self.get_row(0);
        let mut x: usize = 0;
        while x < W_US - 1
            invariant
                x <= W_US - 1,
                forall|j: int| 0 <= j < x ==> row@[j] == Some(OccupiedBlock::FromGarbage),
            decreases W_US - 1 - x,
        {
            row[x] = Some(OccupiedBlock::FromGarbage);
            x = x + 1;
        }
        row[W_US - 1] = None;
        assert(row@ =~= garbage_row());
        self.set_row(0, row);
        assert(self@ =~= seq![garbage_row()] + old(self)@.take(MAX_H - 1));
    }

    /// The packed occupancy map of the field.
    pub fn make_bitmap_field(&self) -> (res: BitmapField)
        ensures
            forall|x: int, y: int|
                0 <= x < W && 0 <= y < MAX_H ==> res.bits()[y * W + x] == (#[trigger] self@[y][x]
                    is Some),
    {
        let mut bf = BitmapField::new();
        let mut y: usize = 0;
        while y < MAX_H_US
            invariant
                y <= MAX_H_US,
                forall|i: int|
                    0 <= i < NUM_POSITIONS ==> #[trigger] bf.bit(i) == (i < y * W && self@[i / (W as int)][i
                        % (W as int)] is Some),
            decreases MAX_H_US - y,
        {
            let mut x: usize = 0;
            while x < W_US
                invariant
                    y < MAX_H_US,
                    x <= W_US,
                    forall|i: int|
                        0 <= i < NUM_POSITIONS ==> #[trigger] bf.bit(i) == (i < y * W + x && self@[i
                            / (W as int)][i % (W as int)] is Some),
                decreases W_US - x,
            {
                if self.occupied[y][x].is_some() {
                    bf.set(&Pos { x: x as i32, y: y as i32 });
                }
                x = x + 1;
            }
            y = y + 1;
        }
        assert forall|x: int, y: int| 0 <= x < W && 0 <= y < MAX_H implies bf.bits()[y * W + x]
            == (#[trigger] self@[y][x] is Some) by {
            let i = y * W + x;
            assert(i / (W as int) == y && i % (W as int) == x);
        }
        bf
    }
}

pub proof fn lemma_first_empty_range(rows: Seq<Seq<Option<OccupiedBlock>>>, y: int)
    requires
        0 <= y <= rows.len(),
    ensures
        y <= first_empty_from(rows, y) <= rows.len(),
    decreases rows.len() - y,
{
    if y < rows.len() && !row_empty(rows[y]) {
        lemma_first_empty_range(rows, y + 1);
    }
}

/// The rows kept by line clearing are rows of the input that are not full.
pub proof fn lemma_keep_unfilled(rows: Seq<Seq<Option<OccupiedBlock>>>)
    ensures
        keep_unfilled(rows).len() <= rows.len(),
        forall|i: int|
            0 <= i < keep_unfilled(rows).len() ==> rows.contains(#[trigger] keep_unfilled(rows)[i])
                && !row_full(keep_unfilled(rows)[i]),
    decreases rows.len(),
{
    if rows.len() > 0 {
        lemma_keep_unfilled(rows.drop_last());
        let k = keep_unfilled(rows.drop_last());
        assert forall|i: int| 0 <= i < keep_unfilled(rows).len() implies rows.contains(
            #[trigger] keep_unfilled(rows)[i],
        ) && !row_full(keep_unfilled(rows)[i]) by {
            if i < k.len() {
                let w = choose|w: int| 0 <= w < rows.drop_last().len() && rows.drop_last()[w] == k[i];
                assert(rows[w] == k[i]);
            } else {
                assert(rows[rows.len() - 1] == rows.last());
            }
        }
    }
}

/// Line clearing removes at most every stored row, keeps the field's dimensions, and leaves no
/// full row among the rows that settled.
pub proof fn lemma_cleared_rows(rows: Seq<Seq<Option<OccupiedBlock>>>)
    requires
        wf_rows(rows),
    ensures
        0 <= lines_cleared(rows) <= MAX_H,
        wf_rows(cleared_rows(rows)),
        forall|y: int|
            0 <= y < first_empty_from(rows, 0) - lines_cleared(rows) ==> !row_full(
                #[trigger] cleared_rows(rows)[y],
            ),
        forall|y: int|
            first_empty_from(rows, 0) <= y < MAX_H ==> #[trigger] cleared_rows(rows)[y] == rows[y],
{
    let k = first_empty_from(rows, 0);
    lemma_first_empty_range(rows, 0);
    lemma_keep_unfilled(rows.take(k));
    let kept = keep_unfilled(rows.take(k));
    let c = cleared_rows(rows);
    assert forall|y: int| 0 <= y < MAX_H implies (#[trigger] c[y]).len() == W by {
        if y < kept.len() {
            let w = choose|w: int| 0 <= w < rows.take(k).len() && rows.take(k)[w] == kept[y];
            assert(rows[w] == kept[y]);
        }
    }
}

pub proof fn lemma_set_cell_wf(rows: Seq<Seq<Option<OccupiedBlock>>>, x: int, y: int, v: Option<OccupiedBlock>)
    requires
        wf_rows(rows),
    ensures
        wf_rows(set_cell(rows, x, y, v)),
{
    let r = set_cell(rows, x, y, v);
    assert forall|yy: int| 0 <= yy < MAX_H implies (#[trigger] r[yy]).len() == W by {
    }
}

pub proof fn lemma_placed_wf(rows: Seq<Seq<Option<OccupiedBlock>>>, t: Tetromino)
    requires
        wf_rows(rows),
    ensures
        wf_rows(placed(rows, t)),
{
    let v = Some(OccupiedBlock::FromShape(t.shape));
    let r0 = set_cell(rows, t.block_x(0), t.block_y(0), v);
    lemma_set_cell_wf(rows, t.block_x(0), t.block_y(0), v);
    let r1 = set_cell(r0, t.block_x(1), t.block_y(1), v);
    lemma_set_cell_wf(r0, t.block_x(1), t.block_y(1), v);
    let r2 = set_cell(r1, t.block_x(2), t.block_y(2), v);
    lemma_set_cell_wf(r1, t.block_x(2), t.block_y(2), v);
    lemma_set_cell_wf(r2, t.block_x(3), t.block_y(3), v);
}

/// The shadow of a tetromino is the tetromino moved straight down: it fits wherever the
/// tetromino fits, and it cannot move down any further.
pub proof fn lemma_dropped_lands(rows: Seq<Seq<Option<OccupiedBlock>>>, t: Tetromino)
    requires
        t.wf(),
    ensures
        dropped(rows, t).wf(),
        dropped(rows, t).shape == t.shape,
        dropped(rows, t).rotation == t.rotation,
        dropped(rows, t).x == t.x,
        dropped(rows, t).y <= t.y,
        fits(rows, t) ==> fits(rows, dropped(rows, t)),
        match dropped(rows, t).spec_down() {
            Some(n) => !fits(rows, n),
            None => true,
        },
    decreases t.y + 8,
{
    if t.y <= -4 {
        assert(t.spec_down() is None) by {
            assert(t.moved(0, -1).block_y(0) < 0);
        }
    } else {
        match t.spec_down() {
            Some(n) => {
                if fits(rows, n) {
                    assert(n.block_y(0) >= 0);
                    lemma_dropped_lands(rows, n);
                }
            },
            None => {},
        }
    }
}

/// A tetromino rests exactly when one of its blocks is on the floor row or has an occupied cell
/// of the field directly below it.
pub proof fn lemma_rests_cells(rows: Seq<Seq<Option<OccupiedBlock>>>, t: Tetromino)
    ensures
        rests(rows, t) == exists|i: int|
            0 <= i < 4 && (t.block_y(i) <= 0 || cell_at(rows, t.block_x(i), t.block_y(i) - 1) is Some),
{
    if rests(rows, t) {
        if block_rests(rows, t, 0) {
            assert(0 <= 0int < 4 && (t.block_y(0) <= 0 || cell_at(rows, t.block_x(0), t.block_y(0) - 1) is Some));
        } else if block_rests(rows, t, 1) {
            assert(0 <= 1int < 4 && (t.block_y(1) <= 0 || cell_at(rows, t.block_x(1), t.block_y(1) - 1) is Some));
        } else if block_rests(rows, t, 2) {
            assert(0 <= 2int < 4 && (t.block_y(2) <= 0 || cell_at(rows, t.block_x(2), t.block_y(2) - 1) is Some));
        } else {
            assert(0 <= 3int < 4 && (t.block_y(3) <= 0 || cell_at(rows, t.block_x(3), t.block_y(3) - 1) is Some));
        }
    }
    if exists|i: int|
        0 <= i < 4 && (t.block_y(i) <= 0 || cell_at(rows, t.block_x(i), t.block_y(i) - 1) is Some) {
        let i = choose|i: int|
            0 <= i < 4 && (t.block_y(i) <= 0 || cell_at(rows, t.block_x(i), t.block_y(i) - 1) is Some);
        assert(i == 0 || i == 1 || i == 2 || i == 3);
    }
}

/// A tetromino between the walls and above the floor rests exactly when it cannot move one row
/// down: the move would leave the field or overlap an occupied cell.
pub proof fn lemma_rests_iff_blocked(rows: Seq<Seq<Option<OccupiedBlock>>>, t: Tetromino)
    requires
        t.in_bounds(),
    ensures
        rests(rows, t) == match t.spec_down() {
            Some(n) => !fits(rows, n),
            None => true,
        },
{
    let n = t.moved(0, -1);
    assert(0 <= rotated_cell(t.shape, t.rotation as int, 0).1 <= 3);
    assert(t.y >= -3);
    assert forall|i: int| 0 <= i < 4 implies n.block_x(i) == t.block_x(i) && n.block_y(i) == t.block_y(i) - 1 by {
    }
}

/// Moving straight down from a tetromino that fits to its shadow passes only through
/// placements that fit: the shadow is the first place on the way down where the tetromino stops.
pub proof fn lemma_dropped_path(rows: Seq<Seq<Option<OccupiedBlock>>>, t: Tetromino)
    requires
        t.wf(),
        fits(rows, t),
    ensures
        forall|d: int| 0 <= d <= t.y - dropped(rows, t).y ==> fits(rows, #[trigger] t.moved(0, -d)),
    decreases t.y + 8,
{
    if t.y > -4 {
        match t.spec_down() {
            Some(n) => {
                if fits(rows, n) {
                    lemma_dropped_path(rows, n);
                    assert forall|d: int| 0 <= d <= t.y - dropped(rows, t).y implies fits(
                        rows,
                        #[trigger] t.moved(0, -d),
                    ) by {
                        if d > 0 {
                            assert(t.moved(0, -d) == n.moved(0, -(d - 1)));
                        } else {
                            assert(t.moved(0, 0) == t);
                        }
                    }
                }
            },
            None => {
                assert(t.moved(0, 0) == t);
            },
        }
    } else {
        assert(t.moved(0, 0) == t);
    }
}

} // verus!
