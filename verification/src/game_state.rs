use vstd::prelude::*;

use std::collections::VecDeque;

use crate::bitmap_field::BitmapField;
use crate::consts::{GARBAGE_TURN_COUNT, MAX_H, NUM_PREVIEWS, W};
use crate::field::{
    cell_at, cleared_rows, dropped, fits, garbage_row, lines_cleared, placed, rests, wf_rows,
    Field, OccupiedBlock, Pos,
};
use crate::shapes::{Rot, Shape, Shift};
use crate::tetromino::Tetromino;
use crate::upcoming::UpcomingTetrominios;

verus! {

/// A running game of one player.
#[derive(Debug)]
pub struct GameState {
    field: Field,
    active: Tetromino,
    upcoming: UpcomingTetrominios,
    garbage_queue: VecDeque<usize>,
    held: Option<Shape>,
    hold_used: bool,
}

/// What a cell shows.
#[derive(Clone, Copy, PartialEq, Eq, Structural, Debug)]
pub enum BlockDisplayState {
    Empty,
    Occupied(OccupiedBlock),
    Active(Shape),
    Shadow(Shape),
}

/// The outcome of locking the active tetromino.
#[derive(Clone, Copy, PartialEq, Eq, Structural, Debug)]
pub enum LockResult {
    GameOver,
    Success { lines_cleared: i32 },
}

/// How a down move was triggered.
#[derive(Clone, Copy, PartialEq, Eq, Structural, Debug)]
pub enum DownType {
    FirstPress,
    HoldRepeat,
    Gravity,
}

/// An event that changes the game.
#[derive(Clone, Copy, PartialEq, Eq, Structural, Debug)]
pub enum TickMutation {
    LockTimerExpired,
    DownInput(DownType),
    ShiftInput(Shift),
    RotateInput(Rot),
    DropInput,
    HoldInput,
    EnqueueTetromino(Shape),
    JumpToBotStartPosition(Tetromino),
    EnqueueGarbage(usize),
}

/// What the caller has to do after a mutation.
#[derive(Clone, Copy, PartialEq, Eq, Structural, Debug)]
pub enum TickResult {
    Lock(LockResult),
    RestartLockTimer,
    ClearLockTimer,
}

/// The abstract state of a game.
#[verifier::ext_equal]
pub struct GameModel {
    pub field: Seq<Seq<Option<OccupiedBlock>>>,
    pub active: Tetromino,
    pub upcoming: Seq<Shape>,
    pub garbage: Seq<usize>,
    pub held: Option<Shape>,
    pub hold_used: bool,
}

/// Queued garbage counts are between 1 and `GARBAGE_TURN_COUNT`, and never decrease from the
/// front of the queue to the back.
pub open spec fn garbage_wf(g: Seq<usize>) -> bool {
    &&& forall|i: int| 0 <= i < g.len() ==> 1 <= #[trigger] g[i] <= GARBAGE_TURN_COUNT
    &&& forall|i: int, j: int| 0 <= i <= j < g.len() ==> #[trigger] g[i] <= #[trigger] g[j]
}

impl GameModel {
    pub open spec fn wf(self) -> bool {
        &&& wf_rows(self.field)
        &&& self.active.wf()
        &&& garbage_wf(self.garbage)
    }
}

/// Restart the lock timer when the active tetromino rests on something, clear it otherwise.
pub open spec fn lock_timer_result(m: GameModel) -> TickResult {
    if rests(m.field, m.active) {
        TickResult::RestartLockTimer
    } else {
        TickResult::ClearLockTimer
    }
}

/// Raises one garbage row for each count of 1 at the front of the queue, removing those counts.
pub open spec fn raise_due_garbage(
    field: Seq<Seq<Option<OccupiedBlock>>>,
    g: Seq<usize>,
) -> (Seq<Seq<Option<OccupiedBlock>>>, Seq<usize>)
    decreases g.len(),
{
    if g.len() > 0 && g[0] == 1 {
        raise_due_garbage(seq![garbage_row()] + field.take(MAX_H - 1), g.drop_first())
    } else {
        (field, g)
    }
}

pub open spec fn count_down(g: Seq<usize>) -> Seq<usize> {
    g.map_values(|c: usize| (c - 1) as usize)
}

/// Locks the active tetromino into the field: lines clear, due garbage rises, the remaining
/// garbage counts go down by one and the next shape spawns.
pub open spec fn spec_lock(m: GameModel) -> (GameModel, Seq<TickResult>) {
    let with_piece = placed(m.field, m.active);
    let lines = lines_cleared(with_piece);
    let (field, g) = raise_due_garbage(cleared_rows(with_piece), m.garbage);
    let active = Tetromino::spec_new(m.upcoming[0]);
    let m2 = GameModel {
        field,
        active,
        upcoming: m.upcoming.drop_first(),
        garbage: count_down(g),
        held: m.held,
        hold_used: false,
    };
    let lr = if fits(field, active) {
        LockResult::Success { lines_cleared: lines as i32 }
    } else {
        LockResult::GameOver
    };
    (m2, seq![TickResult::ClearLockTimer, TickResult::Lock(lr)])
}

pub open spec fn with_active(m: GameModel, t: Tetromino) -> GameModel {
    GameModel { active: t, ..m }
}

/// Moves the active tetromino to `t` and reports the lock timer.
pub open spec fn spec_move(m: GameModel, t: Tetromino) -> (GameModel, Seq<TickResult>) {
    let m2 = with_active(m, t);
    (m2, seq![lock_timer_result(m2)])
}

pub open spec fn spec_down(m: GameModel, dt: DownType) -> (GameModel, Seq<TickResult>) {
    match m.active.spec_down() {
        Some(n) if fits(m.field, n) => spec_move(m, n),
        _ => match dt {
            DownType::FirstPress => spec_lock(m),
            _ => (m, Seq::empty()),
        },
    }
}

pub open spec fn spec_drop(m: GameModel) -> (GameModel, Seq<TickResult>) {
    spec_lock(with_active(m, dropped(m.field, m.active)))
}

pub open spec fn spec_shift(m: GameModel, dir: Shift) -> (GameModel, Seq<TickResult>) {
    match m.active.spec_shift(dir) {
        Some(n) if fits(m.field, n) => spec_move(m, n),
        _ => (m, Seq::empty()),
    }
}

/// The first placement of `opts` that fits the field.
pub open spec fn first_fitting(field: Seq<Seq<Option<OccupiedBlock>>>, opts: Seq<Tetromino>) -> Option<
    Tetromino,
>
    decreases opts.len(),
{
    if opts.len() == 0 {
        None
    } else if fits(field, opts[0]) {
        Some(opts[0])
    } else {
        first_fitting(field, opts.drop_first())
    }
}

pub open spec fn spec_rotate(m: GameModel, dir: Rot) -> (GameModel, Seq<TickResult>) {
    match first_fitting(m.field, m.active.spec_rotation_options(dir)) {
        Some(n) => spec_move(m, n),
        None => (m, Seq::empty()),
    }
}

/// Swaps the active shape with the held one (or with the next upcoming shape when nothing is
/// held), at most once between locks.
pub open spec fn spec_hold(m: GameModel) -> (GameModel, Seq<TickResult>) {
    if m.hold_used {
        (m, Seq::empty())
    } else {
        let (new_shape, upcoming) = match m.held {
            Some(h) => (h, m.upcoming),
            None => (m.upcoming[0], m.upcoming.drop_first()),
        };
        let active = Tetromino::spec_new(new_shape);
        let m2 = GameModel {
            active,
            upcoming,
            held: Some(m.active.shape),
            hold_used: true,
            ..m
        };
        let over: Seq<TickResult> = if fits(m.field, active) {
            Seq::empty()
        } else {
            seq![TickResult::Lock(LockResult::GameOver)]
        };
        (m2, over.push(lock_timer_result(m2)))
    }
}

pub open spec fn spec_step(m: GameModel, mutation: TickMutation) -> (GameModel, Seq<TickResult>) {
    match mutation {
        TickMutation::LockTimerExpired => spec_lock(m),
        TickMutation::DownInput(dt) => spec_down(m, dt),
        TickMutation::ShiftInput(dir) => spec_shift(m, dir),
        TickMutation::RotateInput(dir) => spec_rotate(m, dir),
        TickMutation::DropInput => spec_drop(m),
        TickMutation::HoldInput => spec_hold(m),
        TickMutation::EnqueueTetromino(shape) => (
            GameModel { upcoming: m.upcoming.push(shape), ..m },
            Seq::empty(),
        ),
        TickMutation::JumpToBotStartPosition(t) => (with_active(m, t), Seq::empty()),
        TickMutation::EnqueueGarbage(n) => (
            GameModel {
                garbage: m.garbage + Seq::new(n as nat, |i: int| GARBAGE_TURN_COUNT),
                ..m
            },
            Seq::empty(),
        ),
    }
}

/// Whether a mutation can be applied: it never takes a shape from an empty queue, and a jump
/// target stays within the tetromino bounds.
pub open spec fn step_ok(m: GameModel, mutation: TickMutation) -> bool {
    match mutation {
        TickMutation::LockTimerExpired => m.upcoming.len() > 0,
        TickMutation::DownInput(DownType::FirstPress) => m.upcoming.len() > 0 || match m.active.spec_down() {
            Some(n) => fits(m.field, n),
            None => false,
        },
        TickMutation::DropInput => m.upcoming.len() > 0,
        TickMutation::HoldInput => m.hold_used || m.held is Some || m.upcoming.len() > 0,
        TickMutation::JumpToBotStartPosition(t) => t.wf(),
        TickMutation::EnqueueGarbage(n) => m.garbage.len() + n <= usize::MAX,
        _ => true,
    }
}

/// Applies the mutations in order, collecting their results.
pub open spec fn spec_run(m: GameModel, ms: Seq<TickMutation>) -> (GameModel, Seq<TickResult>)
    decreases ms.len(),
{
    if ms.len() == 0 {
        (m, Seq::empty())
    } else {
        let (m1, r1) = spec_run(m, ms.drop_last());
        let (m2, r2) = spec_step(m1, ms.last());
        (m2, r1 + r2)
    }
}

pub open spec fn run_ok(m: GameModel, ms: Seq<TickMutation>) -> bool
    decreases ms.len(),
{
    if ms.len() == 0 {
        true
    } else {
        run_ok(m, ms.drop_last()) && step_ok(spec_run(m, ms.drop_last()).0, ms.last())
    }
}

/// What cell `(x, y)` shows: the active tetromino, then its landing shadow, then the field.
pub open spec fn display_state(m: GameModel, x: int, y: int) -> BlockDisplayState {
    if m.active.covers(x, y) {
        BlockDisplayState::Active(m.active.shape)
    } else if dropped(m.field, m.active).covers(x, y) {
        BlockDisplayState::Shadow(m.active.shape)
    } else if let Some(c) = cell_at(m.field, x, y) {
        BlockDisplayState::Occupied(c)
    } else {
        BlockDisplayState::Empty
    }
}

pub open spec fn opt_seq(r: Option<TickResult>) -> Seq<TickResult> {
    match r {
        Some(t) => seq![t],
        None => Seq::empty(),
    }
}

/// Raising due garbage drops a front part of the queue: everything up to the first count that
/// is not 1.
proof fn lemma_raise_due_garbage(field: Seq<Seq<Option<OccupiedBlock>>>, g: Seq<usize>) -> (j: int)
    ensures
        0 <= j <= g.len(),
        raise_due_garbage(field, g).1 == g.skip(j),
        j == g.len() || g[j] != 1,
        wf_rows(field) ==> wf_rows(raise_due_garbage(field, g).0),
    decreases g.len(),
{
    if g.len() > 0 && g[0] == 1 {
        let f2 = seq![garbage_row()] + field.take(MAX_H - 1);
        let j = lemma_raise_due_garbage(f2, g.drop_first());
        assert(g.drop_first().skip(j) =~= g.skip(j + 1));
        if wf_rows(field) {
            assert forall|y: int| 0 <= y < MAX_H implies (#[trigger] f2[y]).len() == W by {
                if y > 0 {
                    assert(f2[y] == field[y - 1]);
                }
            }
        }
        j + 1
    } else {
        assert(g.skip(0) =~= g);
        0
    }
}

/// Counting down a queue whose front count is not 1 keeps it well formed.
proof fn lemma_count_down_wf(g: Seq<usize>, j: int)
    requires
        garbage_wf(g),
        0 <= j <= g.len(),
        j == g.len() || g[j] != 1,
    ensures
        garbage_wf(count_down(g.skip(j))),
{
    let s = g.skip(j);
    assert forall|i: int| 0 <= i < s.len() implies s[i] >= 2 by {
        assert(g[j] <= g[j + i]);
    }
}

impl View for GameState {
    type V = GameModel;

    closed spec fn view(&self) -> GameModel {
        GameModel {
            field: self.field@,
            active: self.active,
            upcoming: self.upcoming@,
            garbage: self.garbage_queue@,
            held: self.held,
            hold_used: self.hold_used,
        }
    }
}

impl Clone for GameState {
    fn clone(&self) -> (res: Self)
        ensures
            res@ == self@,
    {
        let mut garbage_queue: VecDeque<usize> = VecDeque::new();
        let mut i: usize = 0;
        while i < self.garbage_queue.len()
            invariant
                i <= self@.garbage.len(),
                garbage_queue@ == self@.garbage.take(i as int),
            decreases self@.garbage.len() - i,
        {
            garbage_queue.push_back(self.garbage_queue[i]);
            assert(self@.garbage.take(i + 1) =~= self@.garbage.take(i as int).push(
                self@.garbage[i as int],
            ));
            i = i + 1;
        }
        assert(self@.garbage.take(self@.garbage.len() as int) =~= self@.garbage);
        let res = GameState {
            field: self.field,
            active: self.active,
            upcoming: self.upcoming.clone(),
            garbage_queue,
            held: self.held,
            hold_used: self.hold_used,
        };
        assert(res@ =~= self@);
        res
    }
}

impl GameState {
    /// The invariant every game state keeps.
    pub open spec fn wf(&self) -> bool {
        self@.wf()
    }

    /// A new game: an empty field, the first shape active and the rest queued.
    pub fn new(inital_shapes: Vec<Shape>) -> (res: GameState)
        requires
            inital_shapes@.len() > 0,
        ensures
            res.wf(),
            res@ == (GameModel {
                field: Seq::new(MAX_H as nat, |y: int| crate::field::empty_row()),
                active: Tetromino::spec_new(inital_shapes@[0]),
                upcoming: inital_shapes@.drop_first(),
                garbage: Seq::empty(),
                held: None,
                hold_used: false,
            }),
    {
        let mut upcoming = UpcomingTetrominios::new(inital_shapes);
        let first = upcoming.take();
        let res = GameState {
            field: Field::new(),
            active: Tetromino::new(first),
            garbage_queue: VecDeque::new(),
            held: None,
            hold_used: false,
            upcoming,
        };
        assert(res@ =~= (GameModel {
            field: Seq::new(MAX_H as nat, |y: int| crate::field::empty_row()),
            active: Tetromino::spec_new(inital_shapes@[0]),
            upcoming: inital_shapes@.drop_first(),
            garbage: Seq::empty(),
            held: None,
            hold_used: false,
        }));
        res
    }

    /// A new game on the given field: the first shape active and the rest queued.
    pub fn with_initial_state(inital_shapes: Vec<Shape>, field: Field) -> (res: GameState)
        requires
            inital_shapes@.len() > 0,
        ensures
            res.wf(),
            res@ == (GameModel {
                field: field@,
                active: Tetromino::spec_new(inital_shapes@[0]),
                upcoming: inital_shapes@.drop_first(),
                garbage: Seq::empty(),
                held: None,
                hold_used: false,
            }),
    {
        let mut upcoming = UpcomingTetrominios::new(inital_shapes);
        let first = upcoming.take();
        proof {
            field.lemma_wf();
        }
        let res = GameState {
            field,
            active: Tetromino::new(first),
            garbage_queue: VecDeque::new(),
            held: None,
            hold_used: false,
            upcoming,
        };
        assert(res@ =~= (GameModel {
            field: field@,
            active: Tetromino::spec_new(inital_shapes@[0]),
            upcoming: inital_shapes@.drop_first(),
            garbage: Seq::empty(),
            held: None,
            hold_used: false,
        }));
        res
    }

    /// Applies the mutations in order and returns everything they report.
    pub fn tick_mutation(&mut self, mutations: Vec<TickMutation>) -> (res: Vec<TickResult>)
        requires
            old(self).wf(),
            run_ok(old(self)@, mutations@),
        ensures
            final(self).wf(),
            (final(self)@, res@) == spec_run(old(self)@, mutations@),
    {
        let mut result: Vec<TickResult> = Vec::new();
        let mut i: usize = 0;
        while i < mutations.len()
            invariant
                i <= mutations@.len(),
                self.wf(),
                run_ok(old(self)@, mutations@),
                (self@, result@) == spec_run(old(self)@, mutations@.take(i as int)),
            decreases mutations@.len() - i,
        {
            let ghost prefix = mutations@.take(i as int);
            assert(mutations@.take(i + 1).drop_last() =~= prefix);
            assert(run_ok(old(self)@, mutations@.take(i + 1))) by {
                lemma_run_ok_prefix(old(self)@, mutations@, i + 1);
            }
            let mutation = mutations[i];
            let mut step = self.step(mutation);
            result.append(&mut step);
            i = i + 1;
        }
        assert(mutations@.take(mutations@.len() as int) =~= mutations@);
        result
    }

    fn step(&mut self, mutation: TickMutation) -> (res: Vec<TickResult>)
        requires
            old(self).wf(),
            step_ok(old(self)@, mutation),
        ensures
            final(self).wf(),
            (final(self)@, res@) == spec_step(old(self)@, mutation),
    {
        match mutation {
            TickMutation::LockTimerExpired => self.lock_active_tetromino(),
            TickMutation::DownInput(dt) => self.down(dt),
            TickMutation::ShiftInput(shift) => {
                let r = self.shift(shift);
                Self::option_to_vec(r)
            },
            TickMutation::RotateInput(rot) => {
                let r = self.rotate(rot);
                Self::option_to_vec(r)
            },
            TickMutation::DropInput => self.drop(),
            TickMutation::HoldInput => self.hold(),
            TickMutation::EnqueueTetromino(shape) => {
                self.upcoming.enqueue(shape);
                assert(self@ =~= spec_step(old(self)@, mutation).0);
                Vec::new()
            },
            TickMutation::JumpToBotStartPosition(new_tet) => {
                self.active = new_tet;
                Vec::new()
            },
            TickMutation::EnqueueGarbage(lines) => {
                self.enqueue_garbage(lines);
                Vec::new()
            },
        }
    }

    fn option_to_vec(r: Option<TickResult>) -> (res: Vec<TickResult>)
        ensures
            res@ == opt_seq(r),
    {
        let mut v: Vec<TickResult> = Vec::new();
        if let Some(t) = r {
            v.push(t);
        }
        assert(v@ =~= opt_seq(r));
        v
    }

    /// Moves the active tetromino one row down; when it cannot move, a first press locks it.
    fn down(&mut self, down_type: DownType) -> (res: Vec<TickResult>)
        requires
            old(self).wf(),
            step_ok(old(self)@, TickMutation::DownInput(down_type)),
        ensures
            final(self).wf(),
            (final(self)@, res@) == spec_down(old(self)@, down_type),
    {
        match self.active.down() {
            Some(new_t) => {
                if self.field.is_valid(&new_t) {
                    self.active = new_t;
                    let r = self.update_lock_timer_for_movement();
                    let mut v = Vec::new();
                    v.push(r);
                    assert(v@ =~= seq![r]);
                    return v;
                }
            },
            None => {},
        }
        match down_type {
            DownType::FirstPress => self.lock_active_tetromino(),
            _ => Vec::new(),
        }
    }

    /// Moves the active tetromino all the way down and locks it.
    fn drop(&mut self) -> (res: Vec<TickResult>)
        requires
            old(self).wf(),
            old(self)@.upcoming.len() > 0,
        ensures
            final(self).wf(),
            (final(self)@, res@) == spec_drop(old(self)@),
    {
        self.active = self.field.find_shadow(&self.active);
        self.lock_active_tetromino()
    }

    fn shift(&mut self, dir: Shift) -> (res: Option<TickResult>)
        requires
            old(self).wf(),
        ensures
            final(self).wf(),
            (final(self)@, opt_seq(res)) == spec_shift(old(self)@, dir),
    {
        match self.active.shift(dir) {
            Some(new_t) => {
                if self.field.is_valid(&new_t) {
                    self.active = new_t;
                    let r = self.update_lock_timer_for_movement();
                    return Some(r);
                }
                None
            },
            None => None,
        }
    }

    fn rotate(&mut self, dir: Rot) -> (res: Option<TickResult>)
        requires
            old(self).wf(),
        ensures
            final(self).wf(),
            (final(self)@, opt_seq(res)) == spec_rotate(old(self)@, dir),
    {
        let options = self.active.rotation_options(dir);
        let ghost opts = options@;
        let mut i: usize = 0;
        assert(opts.skip(0) =~= opts);
        while i < options.len()
            invariant
                i <= opts.len(),
                options@ == opts,
                self@ == old(self)@,
                self.wf(),
                opts == old(self)@.active.spec_rotation_options(dir),
                forall|j: int| 0 <= j < opts.len() ==> (#[trigger] opts[j]).wf(),
                first_fitting(self@.field, opts) == first_fitting(self@.field, opts.skip(i as int)),
            decreases opts.len() - i,
        {
            assert(opts.skip(i as int).drop_first() =~= opts.skip(i + 1));
            if self.field.is_valid(&options[i]) {
                self.active = options[i];
                let r = self.update_lock_timer_for_movement();
                return Some(r);
            }
            i = i + 1;
        }
        None
    }

    /// Queues `num_lines` garbage lines, each due after `GARBAGE_TURN_COUNT` locks.
    fn enqueue_garbage(&mut self, num_lines: usize)
        requires
            old(self).wf(),
            old(self)@.garbage.len() + num_lines <= usize::MAX,
        ensures
            final(self).wf(),
            final(self)@ == (GameModel {
                garbage: old(self)@.garbage + Seq::new(num_lines as nat, |i: int| GARBAGE_TURN_COUNT),
                ..old(self)@
            }),
    {
        let mut k: usize = 0;
        while k < num_lines
            invariant
                k <= num_lines,
                self@ == (GameModel {
                    garbage: old(self)@.garbage + Seq::new(k as nat, |i: int| GARBAGE_TURN_COUNT),
                    ..old(self)@
                }),
                garbage_wf(old(self)@.garbage),
            decreases num_lines - k,
        {
            self.garbage_queue.push_back(GARBAGE_TURN_COUNT);
            assert(old(self)@.garbage + Seq::new((k + 1) as nat, |i: int| GARBAGE_TURN_COUNT) =~= (
            old(self)@.garbage + Seq::new(k as nat, |i: int| GARBAGE_TURN_COUNT)).push(
                GARBAGE_TURN_COUNT,
            ));
            k = k + 1;
        }
        assert(self@ =~= (GameModel {
            garbage: old(self)@.garbage + Seq::new(num_lines as nat, |i: int| GARBAGE_TURN_COUNT),
            ..old(self)@
        }));
    }

    /// The garbage count at position `index` of the queue, if there is one.
    pub fn get_garbage_element_countdown(&self, index: usize) -> (res: Option<usize>)
        ensures
            res == if index < self@.garbage.len() {
                Some(self@.garbage[index as int])
            } else {
                None
            },
    {
        if index < self.garbage_queue.len() {
            Some(self.garbage_queue[index])
        } else {
            None
        }
    }

    /// What the cell `p` shows.
    pub fn get_display_state(&self, p: &Pos) -> (res: BlockDisplayState)
        requires
            self.wf(),
        ensures
            res == display_state(self@, p.x as int, p.y as int),
    {
        if self.active.contains(p) {
            BlockDisplayState::Active(self.active.shape)
        } else if self.field.find_shadow(&self.active).contains(p) {
            BlockDisplayState::Shadow(self.active.shape)
        } else if let Some(color) = self.field.get_occupied_block(p) {
            BlockDisplayState::Occupied(color)
        } else {
            BlockDisplayState::Empty
        }
    }

    /// The next `NUM_PREVIEWS` shapes as preview tetrominoes.
    pub fn previews(&self) -> (res: [Tetromino; NUM_PREVIEWS])
        requires
            self@.upcoming.len() >= NUM_PREVIEWS,
        ensures
            forall|i: int|
                0 <= i < NUM_PREVIEWS ==> #[trigger] res@[i] == (Tetromino {
                    shape: self@.upcoming[i],
                    rotation: 0,
                    x: 0,
                    y: 0,
                }),
    {
        let p = self.upcoming.preview();
        [
            Tetromino::for_preview(p[0]),
            Tetromino::for_preview(p[1]),
            Tetromino::for_preview(p[2]),
            Tetromino::for_preview(p[3]),
            Tetromino::for_preview(p[4]),
            Tetromino::for_preview(p[5]),
        ]
    }

    /// The held shape as a preview tetromino.
    pub fn held_tetromino(&self) -> (res: Option<Tetromino>)
        ensures
            res == match self@.held {
                Some(s) => Some(Tetromino { shape: s, rotation: 0, x: 0, y: 0 }),
                None => None,
            },
    {
        match self.held {
            Some(s) => Some(Tetromino::for_preview(s)),
            None => None,
        }
    }

    /// The packed occupancy map of the settled blocks.
    pub fn make_bitmap_field(&self) -> (res: BitmapField)
        ensures
            forall|x: int, y: int|
                0 <= x < W && 0 <= y < MAX_H ==> res.bits()[y * W + x] == (#[trigger] self@.field[y][x]
                    is Some),
    {
        self.field.make_bitmap_field()
    }

    pub fn active_shape(&self) -> (res: Shape)
        ensures
            res == self@.active.shape,
    {
        self.active.shape
    }

    /// The next `NUM_PREVIEWS` shapes.
    pub fn upcoming_shapes(&self) -> (res: [Shape; NUM_PREVIEWS])
        requires
            self@.upcoming.len() >= NUM_PREVIEWS,
        ensures
            res@ == self@.upcoming.take(NUM_PREVIEWS as int),
    {
        self.upcoming.preview()
    }

    /// Number of queued shapes.
    pub fn num_upcoming(&self) -> (res: usize)
        ensures
            res == self@.upcoming.len(),
    {
        self.upcoming.len()
    }

    fn hold(&mut self) -> (res: Vec<TickResult>)
        requires
            old(self).wf(),
            step_ok(old(self)@, TickMutation::HoldInput),
        ensures
            final(self).wf(),
            (final(self)@, res@) == spec_hold(old(self)@),
    {
        if self.hold_used {
            return Vec::new();
        }
        self.hold_used = true;
        let new_shape = match self.held {
            Some(h) => {
                self.held = Some(self.active.shape);
                h
            },
            None => {
                self.held = Some(self.active.shape);
                self.upcoming.take()
            },
        };
        let mut result = Vec::new();
        if !self.replace_active_tetromino(new_shape) {
            result.push(TickResult::Lock(LockResult::GameOver));
        }
        let r = self.update_lock_timer_for_movement();
        result.push(r);
        proof {
            let (m2, rs) = spec_hold(old(self)@);
            assert(self@ =~= m2);
            assert(result@ =~= rs);
        }
        result
    }

    fn update_lock_timer_for_movement(&mut self) -> (res: TickResult)
        requires
            old(self).wf(),
        ensures
            final(self)@ == old(self)@,
            res == lock_timer_result(old(self)@),
    {
        if self.field.is_lockable(&self.active) {
            TickResult::RestartLockTimer
        } else {
            TickResult::ClearLockTimer
        }
    }

    fn lock_active_tetromino(&mut self) -> (res: Vec<TickResult>)
        requires
            old(self).wf(),
            old(self)@.upcoming.len() > 0,
        ensures
            final(self).wf(),
            (final(self)@, res@) == spec_lock(old(self)@),
    {
        self.hold_used = false;
        let mut result = Vec::new();
        result.push(TickResult::ClearLockTimer);
        let lines_cleared = self.field.apply_tetrominio(&self.active);
        assert(self.field@ == cleared_rows(placed(old(self)@.field, old(self)@.active)));
        let next_shape = self.upcoming.take();
        assert(self.upcoming@ == old(self)@.upcoming.drop_first());
        let ghost cleared = self.field@;
        let ghost g0 = self.garbage_queue@;
        proof {
            self.field.lemma_wf();
        }
        loop
            invariant
                wf_rows(self.field@),
                raise_due_garbage(self.field@, self.garbage_queue@) == raise_due_garbage(cleared, g0),
                self.upcoming@ == old(self)@.upcoming.drop_first(),
                self.active == old(self)@.active,
                self.held == old(self)@.held,
                !self.hold_used,
            ensures
                (self.field@, self.garbage_queue@) == raise_due_garbage(cleared, g0),
            decreases self.garbage_queue@.len(),
        {
            if self.garbage_queue.len() == 0 {
                break ;
            }
            if self.garbage_queue[0] != 1 {
                break ;
            }
            self.field.apply_garbage();
            self.garbage_queue.pop_front();
            proof {
                self.field.lemma_wf();
            }
        }
        let ghost j = lemma_raise_due_garbage(cleared, g0);
        proof {
            lemma_count_down_wf(g0, j);
        }
        let ghost g1 = self.garbage_queue@;
        let n = self.garbage_queue.len();
        let mut i: usize = 0;
        while i < n
            invariant
                i <= n,
                n == g1.len(),
                forall|k: int| 0 <= k < g1.len() ==> #[trigger] g1[k] >= 1,
                self.garbage_queue@ == g1.skip(i as int) + count_down(g1.take(i as int)),
                self.field@ == raise_due_garbage(cleared, g0).0,
                self.upcoming@ == old(self)@.upcoming.drop_first(),
                self.active == old(self)@.active,
                self.held == old(self)@.held,
                !self.hold_used,
            decreases n - i,
        {
            assert(self.garbage_queue@[0] == g1[i as int]);
            let c = self.garbage_queue.pop_front().unwrap();
            self.garbage_queue.push_back(c - 1);
            assert(g1.skip(i + 1) + count_down(g1.take(i + 1)) =~= self.garbage_queue@);
            i = i + 1;
        }
        assert(g1.skip(n as int) + count_down(g1.take(n as int)) =~= count_down(g1));
        let ok = self.replace_active_tetromino(next_shape);
        result.push(
            TickResult::Lock(
                if ok {
                    LockResult::Success { lines_cleared }
                } else {
                    LockResult::GameOver
                },
            ),
        );
        proof {
            let (m2, rs) = spec_lock(old(self)@);
            assert(self@.field == m2.field);
            assert(self@.garbage =~= m2.garbage);
            assert(self@.upcoming =~= m2.upcoming);
            assert(self@.active == m2.active);
            assert(self@ =~= m2);
            assert(result@ =~= rs);
        }
        result
    }

    /// Spawns a new active tetromino of `shape`; returns whether it fits.
    fn replace_active_tetromino(&mut self, shape: Shape) -> (res: bool)
        ensures
            final(self)@ == with_active(old(self)@, Tetromino::spec_new(shape)),
            res == fits(old(self)@.field, Tetromino::spec_new(shape)),
    {
        self.active = Tetromino::new(shape);
        self.field.is_valid(&self.active)
    }
}

proof fn lemma_run_ok_prefix(m: GameModel, ms: Seq<TickMutation>, k: int)
    requires
        run_ok(m, ms),
        0 <= k <= ms.len(),
    ensures
        run_ok(m, ms.take(k)),
    decreases ms.len() - k,
{
    if k < ms.len() {
        lemma_run_ok_prefix(m, ms, k + 1);
        assert(ms.take(k + 1).drop_last() =~= ms.take(k));
    } else {
        assert(ms.take(k) =~= ms);
    }
}

/// Locking keeps the game well formed, and a successful lock reports between 0 and `MAX_H`
/// cleared lines.
pub proof fn lemma_lock_wf(m: GameModel)
    requires
        m.wf(),
        m.upcoming.len() > 0,
    ensures
        spec_lock(m).0.wf(),
        spec_lock(m).0.upcoming == m.upcoming.drop_first(),
        spec_lock(m).1.len() == 2,
        spec_lock(m).1[0] == TickResult::ClearLockTimer,
        spec_lock(m).1[1] matches TickResult::Lock(lr) && (lr matches LockResult::Success {
            lines_cleared,
        } ==> 0 <= lines_cleared <= MAX_H),
{
    let with_piece = placed(m.field, m.active);
    crate::field::lemma_placed_wf(m.field, m.active);
    crate::field::lemma_cleared_rows(with_piece);
    let j = lemma_raise_due_garbage(cleared_rows(with_piece), m.garbage);
    lemma_count_down_wf(m.garbage, j);
}

/// The hold can be used once between two locks: a second hold does nothing, and locking makes
/// the hold available again.
pub proof fn lemma_hold_once(m: GameModel)
    requires
        m.hold_used || m.held is Some || m.upcoming.len() > 0,
    ensures
        spec_hold(spec_hold(m).0) == (spec_hold(m).0, Seq::<TickResult>::empty()),
        m.upcoming.len() > 0 ==> !spec_lock(m).0.hold_used,
{
}

/// A hold puts the active shape on hold and brings back the held shape, if there was one.
pub proof fn lemma_hold_swaps(m: GameModel)
    requires
        !m.hold_used,
        m.held is Some,
    ensures
        spec_hold(m).0.held == Some(m.active.shape),
        spec_hold(m).0.active == Tetromino::spec_new(m.held.unwrap()),
        spec_hold(m).0.upcoming == m.upcoming,
        spec_hold(m).0.field == m.field,
{
}

/// Applying two batches of mutations one after the other is the same as applying them as one
/// batch: the game ends in the same state and the results are the results of the first batch
/// followed by those of the second.
pub proof fn lemma_run_append(m: GameModel, a: Seq<TickMutation>, b: Seq<TickMutation>)
    ensures
        spec_run(m, a + b) == ({
            let (m1, r1) = spec_run(m, a);
            let (m2, r2) = spec_run(m1, b);
            (m2, r1 + r2)
        }),
        run_ok(m, a + b) == (run_ok(m, a) && run_ok(spec_run(m, a).0, b)),
    decreases b.len(),
{
    if b.len() == 0 {
        assert(a + b =~= a);
        let (m1, r1) = spec_run(m, a);
        assert(r1 + Seq::<TickResult>::empty() =~= r1);
    } else {
        lemma_run_append(m, a, b.drop_last());
        assert((a + b).drop_last() =~= a + b.drop_last());
        assert((a + b).last() == b.last());
        let (m1, r1) = spec_run(m, a);
        let (m2, r2) = spec_run(m1, b.drop_last());
        let (m3, r3) = spec_step(m2, b.last());
        assert(r1 + r2 + r3 =~= r1 + (r2 + r3));
    }
}

/// A cell covered by the active tetromino shows the active shape, whether or not the shadow
/// also covers it.
pub proof fn lemma_display_active(m: GameModel, x: int, y: int)
    requires
        m.active.covers(x, y),
    ensures
        display_state(m, x, y) == BlockDisplayState::Active(m.active.shape),
{
}

/// A cell not covered by the active tetromino but covered by the tetromino moved straight down
/// as far as it fits shows the shadow of the active shape.
pub proof fn lemma_display_shadow(m: GameModel, x: int, y: int)
    requires
        !m.active.covers(x, y),
        dropped(m.field, m.active).covers(x, y),
    ensures
        display_state(m, x, y) == BlockDisplayState::Shadow(m.active.shape),
{
}

/// A cell covered by neither the active tetromino nor its shadow shows what the field holds
/// there: the settled block, or nothing.
pub proof fn lemma_display_field(m: GameModel, x: int, y: int)
    requires
        !m.active.covers(x, y),
        !dropped(m.field, m.active).covers(x, y),
    ensures
        display_state(m, x, y) == match cell_at(m.field, x, y) {
            Some(c) => BlockDisplayState::Occupied(c),
            None => BlockDisplayState::Empty,
        },
{
}

/// While the active tetromino rests on the floor or on the stack, no cell shows a shadow: the
/// landing place is where the tetromino already is.
pub proof fn lemma_resting_no_shadow(m: GameModel, x: int, y: int)
    requires
        m.active.in_bounds(),
        rests(m.field, m.active),
    ensures
        !(display_state(m, x, y) is Shadow),
{
    crate::field::lemma_rests_iff_blocked(m.field, m.active);
    assert(dropped(m.field, m.active) == m.active);
}

/// After a move, the lock timer restarts exactly when the active tetromino cannot move one row
/// further down, and is cleared otherwise.
pub proof fn lemma_lock_timer_blocked(m: GameModel)
    requires
        m.active.in_bounds(),
    ensures
        lock_timer_result(m) == if match m.active.spec_down() {
            Some(n) => !fits(m.field, n),
            None => true,
        } {
            TickResult::RestartLockTimer
        } else {
            TickResult::ClearLockTimer
        },
{
    crate::field::lemma_rests_iff_blocked(m.field, m.active);
}

/// A down move that fits moves the active tetromino one row down, changes nothing else, and
/// reports only the lock timer: restart when the tetromino cannot move further down, clear
/// otherwise. This holds for every kind of down input.
pub proof fn lemma_down_moves(m: GameModel, dt: DownType)
    requires
        m.active.spec_down() is Some,
        fits(m.field, m.active.spec_down().unwrap()),
    ensures
        spec_step(m, TickMutation::DownInput(dt)).0 == (GameModel {
            active: m.active.moved(0, -1),
            ..m
        }),
        spec_step(m, TickMutation::DownInput(dt)).1 == seq![
            if match m.active.moved(0, -1).spec_down() {
                Some(n) => !fits(m.field, n),
                None => true,
            } {
                TickResult::RestartLockTimer
            } else {
                TickResult::ClearLockTimer
            },
        ],
{
    let n = m.active.moved(0, -1);
    crate::field::lemma_rests_iff_blocked(m.field, n);
}

/// A down input from gravity or a held key whose move does not fit changes nothing and reports
/// nothing: the tetromino waits for the lock timer.
pub proof fn lemma_blocked_down_waits(m: GameModel, dt: DownType)
    requires
        dt != DownType::FirstPress,
        match m.active.spec_down() {
            Some(n) => !fits(m.field, n),
            None => true,
        },
    ensures
        spec_step(m, TickMutation::DownInput(dt)) == (m, Seq::<TickResult>::empty()),
{
}

/// A first press of down whose move does not fit locks the tetromino, just as an expired lock
/// timer does.
pub proof fn lemma_blocked_first_press_locks(m: GameModel)
    requires
        match m.active.spec_down() {
            Some(n) => !fits(m.field, n),
            None => true,
        },
    ensures
        spec_step(m, TickMutation::DownInput(DownType::FirstPress)) == spec_step(
            m,
            TickMutation::LockTimerExpired,
        ),
{
}

/// While the active tetromino rests on the floor or on the stack, a down input from gravity or
/// a held key leaves the game as it is and reports nothing.
pub proof fn lemma_resting_piece_waits(m: GameModel, dt: DownType)
    requires
        m.active.in_bounds(),
        lock_timer_result(m) == TickResult::RestartLockTimer,
        dt != DownType::FirstPress,
    ensures
        spec_step(m, TickMutation::DownInput(dt)) == (m, Seq::<TickResult>::empty()),
{
    crate::field::lemma_rests_iff_blocked(m.field, m.active);
}

} // verus!
