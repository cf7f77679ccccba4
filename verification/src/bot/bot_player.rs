use vstd::prelude::*;

use crate::bot::bot_start_positions::{
    bot_start_position, idx_to_shape, index_shape, spec_bot_start_position,
};
use crate::bot::compute_types::{ComputedDropConfig, MoveResultScore, UpcomingShapes};
use crate::bot::search::{config_chain, configs_linked, outputs_up_to, lemma_outputs_monotonic};
use crate::consts::MAX_H;
use crate::bot::{field_bits, score_of};
use crate::game_state::{
    GameState,
    lemma_lock_wf, run_ok, spec_run, spec_step, step_ok, GameModel, LockResult, TickMutation,
    TickResult,
};
use crate::shapes::{Shape, Shift};

verus! {

/// The moves the bot chose and the score they reach.
#[derive(Clone, Debug)]
pub struct MoveResult {
    pub moves: Vec<MovementDescriptor>,
    pub score: MoveResultScore,
}

/// One placement: the shape, how often it is turned clockwise from its start position, and how
/// far it is shifted right (negative: left) before it is dropped.
#[derive(Clone, Copy, PartialEq, Eq, Structural, Debug)]
pub struct MovementDescriptor {
    pub shape: Shape,
    pub cw_rotations: usize,
    pub shifts_right: isize,
}

/// The best sequence of placements found by a search.
#[derive(Debug)]
pub struct ComputedDropSearchResults {
    pub search_depth: usize,
    pub upcoming_shapes: UpcomingShapes,
    pub drops: Vec<MovementDescriptor>,
    pub score: MoveResultScore,
}

impl MovementDescriptor {
    /// A descriptor the game can carry out.
    pub open spec fn valid(self) -> bool {
        self.cw_rotations < 4 && self.shifts_right > isize::MIN
    }

    /// The mutations of a placement: jump to the start position, shift, drop.
    pub open spec fn mutations(self) -> Seq<TickMutation> {
        let dir = if self.shifts_right >= 0 {
            Shift::Right
        } else {
            Shift::Left
        };
        let n = if self.shifts_right >= 0 {
            self.shifts_right as int
        } else {
            -self.shifts_right
        };
        shift_prefix(spec_bot_start_position(self.shape, self.cw_rotations as int), dir, n as nat).push(
            TickMutation::DropInput,
        )
    }

    pub open spec fn of_config(cfg: ComputedDropConfig) -> MovementDescriptor {
        MovementDescriptor {
            shape: index_shape(cfg.shape_idx).unwrap(),
            cw_rotations: cfg.cw_rotations as usize,
            shifts_right: (cfg.right_shifts - cfg.left_shifts) as isize,
        }
    }
}

/// A jump to `t` followed by `n` shifts in direction `dir`.
pub open spec fn shift_prefix(t: crate::tetromino::Tetromino, dir: Shift, n: nat) -> Seq<TickMutation> {
    seq![TickMutation::JumpToBotStartPosition(t)] + Seq::new(n, |i: int| TickMutation::ShiftInput(dir))
}

/// The sum of the cleared-line counts of the successful locks, each taken as a byte.
pub open spec fn total_lines(rs: Seq<TickResult>) -> int
    decreases rs.len(),
{
    if rs.len() == 0 {
        0
    } else {
        total_lines(rs.drop_last()) + match rs.last() {
            TickResult::Lock(LockResult::Success { lines_cleared }) => (lines_cleared as u8) as int,
            _ => 0,
        }
    }
}

/// Some lock ended the game.
pub open spec fn any_game_over(rs: Seq<TickResult>) -> bool {
    exists|i: int| 0 <= i < rs.len() && rs[i] == TickResult::Lock(LockResult::GameOver)
}

/// Carries out the placements in order.
pub open spec fn moves_run(m: GameModel, moves: Seq<MovementDescriptor>) -> (GameModel, Seq<TickResult>)
    decreases moves.len(),
{
    if moves.len() == 0 {
        (m, Seq::empty())
    } else {
        let (m1, r1) = moves_run(m, moves.drop_last());
        let (m2, r2) = spec_run(m1, moves.last().mutations());
        (m2, r1 + r2)
    }
}

/// Every placement can be carried out.
pub open spec fn moves_ok(m: GameModel, moves: Seq<MovementDescriptor>) -> bool
    decreases moves.len(),
{
    if moves.len() == 0 {
        true
    } else {
        moves_ok(m, moves.drop_last()) && moves.last().valid() && run_ok(
            moves_run(m, moves.drop_last()).0,
            moves.last().mutations(),
        )
    }
}

pub proof fn lemma_total_lines_append(a: Seq<TickResult>, b: Seq<TickResult>)
    ensures
        total_lines(a + b) == total_lines(a) + total_lines(b),
    decreases b.len(),
{
    if b.len() == 0 {
        assert(a + b =~= a);
    } else {
        lemma_total_lines_append(a, b.drop_last());
        assert((a + b).drop_last() =~= a + b.drop_last());
    }
}

pub proof fn lemma_total_lines_nonneg(rs: Seq<TickResult>)
    ensures
        total_lines(rs) >= 0,
    decreases rs.len(),
{
    if rs.len() > 0 {
        lemma_total_lines_nonneg(rs.drop_last());
    }
}

/// Results without a lock.
pub open spec fn lock_free(rs: Seq<TickResult>) -> bool {
    forall|i: int| 0 <= i < rs.len() ==> !(#[trigger] rs[i] is Lock)
}

proof fn lemma_lock_free(rs: Seq<TickResult>)
    requires
        lock_free(rs),
    ensures
        total_lines(rs) == 0,
        !any_game_over(rs),
    decreases rs.len(),
{
    if rs.len() > 0 {
        lemma_lock_free(rs.drop_last());
        assert(!(rs[rs.len() - 1] is Lock));
    }
    if any_game_over(rs) {
        let i = choose|i: int| 0 <= i < rs.len() && rs[i] == TickResult::Lock(LockResult::GameOver);
        assert(!(rs[i] is Lock));
    }
}

proof fn lemma_shift_step(m: GameModel, dir: Shift)
    requires
        m.wf(),
    ensures
        step_ok(m, TickMutation::ShiftInput(dir)),
        spec_step(m, TickMutation::ShiftInput(dir)).0.wf(),
        spec_step(m, TickMutation::ShiftInput(dir)).0 == (GameModel {
            active: spec_step(m, TickMutation::ShiftInput(dir)).0.active,
            ..m
        }),
        lock_free(spec_step(m, TickMutation::ShiftInput(dir)).1),
{
}

proof fn lemma_jump(m: GameModel, t: crate::tetromino::Tetromino)
    requires
        m.wf(),
        t.wf(),
    ensures
        run_ok(m, seq![TickMutation::JumpToBotStartPosition(t)]),
        spec_run(m, seq![TickMutation::JumpToBotStartPosition(t)]).0 == (GameModel { active: t, ..m }),
        spec_run(m, seq![TickMutation::JumpToBotStartPosition(t)]).1 == Seq::<TickResult>::empty(),
{
    let ms = seq![TickMutation::JumpToBotStartPosition(t)];
    assert(ms.drop_last() =~= Seq::<TickMutation>::empty());
    assert(ms.last() == TickMutation::JumpToBotStartPosition(t));
    assert(spec_run(m, ms.drop_last()) == (m, Seq::<TickResult>::empty()));
    assert(run_ok(m, ms.drop_last()));
    assert(step_ok(m, TickMutation::JumpToBotStartPosition(t)));
    assert(Seq::<TickResult>::empty() + Seq::<TickResult>::empty() =~= Seq::<TickResult>::empty());
}

/// A jump followed by shifts only moves the active tetromino, and reports no lock.
proof fn lemma_shift_prefix(m: GameModel, t: crate::tetromino::Tetromino, dir: Shift, n: nat)
    requires
        m.wf(),
        t.wf(),
    ensures
        run_ok(m, shift_prefix(t, dir, n)),
        spec_run(m, shift_prefix(t, dir, n)).0.wf(),
        spec_run(m, shift_prefix(t, dir, n)).0 == (GameModel {
            active: spec_run(m, shift_prefix(t, dir, n)).0.active,
            ..m
        }),
        lock_free(spec_run(m, shift_prefix(t, dir, n)).1),
    decreases n,
{
    let ms = shift_prefix(t, dir, n);
    if n == 0 {
        assert(ms =~= seq![TickMutation::JumpToBotStartPosition(t)]);
        lemma_jump(m, t);
    } else {
        let prev = shift_prefix(t, dir, (n - 1) as nat);
        assert(ms.drop_last() =~= prev);
        assert(ms.last() == TickMutation::ShiftInput(dir));
        lemma_shift_prefix(m, t, dir, (n - 1) as nat);
        let (m1, r1) = spec_run(m, prev);
        lemma_shift_step(m1, dir);
        let (m2, r2) = spec_step(m1, TickMutation::ShiftInput(dir));
        assert(lock_free(r1 + r2)) by {
            assert forall|i: int| 0 <= i < (r1 + r2).len() implies !(#[trigger] (r1 + r2)[i] is Lock) by {
                if i < r1.len() {
                    assert((r1 + r2)[i] == r1[i]);
                } else {
                    assert((r1 + r2)[i] == r2[i - r1.len()]);
                }
            }
        }
    }
}

/// One placement on a well-formed game with a shape queued keeps the game well formed, uses up
/// one queued shape, and clears at most `MAX_H` lines.
pub proof fn lemma_move(m: GameModel, md: MovementDescriptor)
    requires
        m.wf(),
        m.upcoming.len() > 0,
        md.valid(),
    ensures
        run_ok(m, md.mutations()),
        spec_run(m, md.mutations()).0.wf(),
        spec_run(m, md.mutations()).0.upcoming == m.upcoming.drop_first(),
        0 <= total_lines(spec_run(m, md.mutations()).1) <= MAX_H,
{
    let dir = if md.shifts_right >= 0 {
        Shift::Right
    } else {
        Shift::Left
    };
    let n = if md.shifts_right >= 0 {
        md.shifts_right as int
    } else {
        -md.shifts_right
    };
    let t = spec_bot_start_position(md.shape, md.cw_rotations as int);
    let prefix = shift_prefix(t, dir, n as nat);
    let ms = md.mutations();
    assert(ms.drop_last() =~= prefix);
    lemma_shift_prefix(m, t, dir, n as nat);
    let (m1, r1) = spec_run(m, prefix);
    lemma_lock_free(r1);
    let dropped_model = GameModel { active: crate::field::dropped(m1.field, m1.active), ..m1 };
    assert(dropped_model.active.wf()) by {
        lemma_dropped_wf(m1.field, m1.active);
    }
    lemma_lock_wf(dropped_model);
    let (m2, r2) = spec_step(m1, TickMutation::DropInput);
    lemma_total_lines_append(r1, r2);
    reveal_with_fuel(total_lines, 3);
    assert(r2.drop_last().drop_last() =~= Seq::<TickResult>::empty());
}

proof fn lemma_dropped_wf(rows: Seq<Seq<Option<crate::field::OccupiedBlock>>>, t: crate::tetromino::Tetromino)
    requires
        t.wf(),
    ensures
        crate::field::dropped(rows, t).wf(),
    decreases t.y + 8,
{
    if t.y > -4 {
        match t.spec_down() {
            Some(n) => {
                if crate::field::fits(rows, n) {
                    lemma_dropped_wf(rows, n);
                }
            },
            None => {},
        }
    }
}

/// Placements on a well-formed game with at least as many queued shapes as placements can all
/// be carried out, and each clears at most `MAX_H` lines.
pub proof fn lemma_moves(m: GameModel, moves: Seq<MovementDescriptor>)
    requires
        m.wf(),
        m.upcoming.len() >= moves.len(),
        forall|i: int| 0 <= i < moves.len() ==> (#[trigger] moves[i]).valid(),
    ensures
        moves_ok(m, moves),
        moves_run(m, moves).0.wf(),
        moves_run(m, moves).0.upcoming == m.upcoming.skip(moves.len() as int),
        0 <= total_lines(moves_run(m, moves).1) <= MAX_H * moves.len(),
    decreases moves.len(),
{
    if moves.len() == 0 {
        assert(m.upcoming.skip(0) =~= m.upcoming);
    } else {
        let prev = moves.drop_last();
        lemma_moves(m, prev);
        let (m1, r1) = moves_run(m, prev);
        assert(moves.last() == moves[moves.len() - 1]);
        lemma_move(m1, moves.last());
        let (m2, r2) = spec_run(m1, moves.last().mutations());
        lemma_total_lines_append(r1, r2);
        assert(m1.upcoming.drop_first() =~= m.upcoming.skip(moves.len() as int));
    }
}

impl MovementDescriptor {
    /// The mutations that carry out this placement.
    pub fn as_tick_mutations(&self) -> (res: Vec<TickMutation>)
        requires
            self.valid(),
        ensures
            res@ == self.mutations(),
    {
        let (dir, num_shifts): (Shift, usize) = if self.shifts_right >= 0 {
            (Shift::Right, self.shifts_right as usize)
        } else {
            (Shift::Left, (-self.shifts_right) as usize)
        };
        let ghost t = spec_bot_start_position(self.shape, self.cw_rotations as int);
        let mut res: Vec<TickMutation> = Vec::new();
        res.push(TickMutation::JumpToBotStartPosition(bot_start_position(self.shape, self.cw_rotations)));
        let mut i: usize = 0;
        while i < num_shifts
            invariant
                i <= num_shifts,
                res@ == shift_prefix(t, dir, i as nat),
            decreases num_shifts - i,
        {
            res.push(TickMutation::ShiftInput(dir));
            assert(res@ =~= shift_prefix(t, dir, (i + 1) as nat));
            i = i + 1;
        }
        res.push(TickMutation::DropInput);
        res
    }

    /// The placement a search configuration describes.
    pub fn from_drop_config(drop_config: &ComputedDropConfig) -> (res: Self)
        requires
            drop_config.shape_idx < 7,
        ensures
            res == Self::of_config(*drop_config),
            drop_config.cw_rotations < 4 ==> res.valid(),
    {
        let shape = match idx_to_shape(drop_config.shape_idx) {
            Some(s) => s,
            None => Shape::I,
        };
        MovementDescriptor {
            shape,
            cw_rotations: drop_config.cw_rotations as usize,
            shifts_right: drop_config.right_shifts as isize - (drop_config.left_shifts as isize),
        }
    }
}

impl ComputedDropSearchResults {
    /// The chosen moves and their score.
    pub fn make_move_result(&self) -> (res: MoveResult)
        ensures
            res.moves@ == self.drops@,
            res.score == self.score,
    {
        let mut moves: Vec<MovementDescriptor> = Vec::new();
        let mut i: usize = 0;
        while i < self.drops.len()
            invariant
                i <= self.drops@.len(),
                moves@ == self.drops@.take(i as int),
            decreases self.drops@.len() - i,
        {
            moves.push(self.drops[i]);
            assert(self.drops@.take(i + 1) =~= self.drops@.take(i as int).push(self.drops@[i as int]));
            i = i + 1;
        }
        assert(self.drops@.take(self.drops@.len() as int) =~= self.drops@);
        MoveResult { moves, score: self.score }
    }

    /// The indices of the scores of the deepest level of a search of depth `search_depth + 1`:
    /// from `outputs_up_to(search_depth)` up to `outputs_up_to(search_depth + 1)`.
    pub fn idx_range(search_depth: usize) -> (res: (usize, usize))
        requires
            outputs_up_to((search_depth + 1) as nat) <= usize::MAX,
        ensures
            res.0 == outputs_up_to(search_depth as nat),
            res.1 == outputs_up_to((search_depth + 1) as nat),
    {
        proof {
            crate::bot::search::lemma_outputs_at_least((search_depth + 1) as nat);
        }
        let mut start_idx: usize = 0;
        let mut end_idx: usize = 0;
        let mut i: usize = 0;
        while i < search_depth + 1
            invariant
                i <= search_depth + 1,
                search_depth < usize::MAX,
                outputs_up_to((search_depth + 1) as nat) <= usize::MAX,
                end_idx == outputs_up_to(i as nat),
                i > 0 ==> start_idx == outputs_up_to((i - 1) as nat),
            decreases search_depth + 1 - i,
        {
            proof {
                lemma_outputs_monotonic((i + 1) as nat, (search_depth + 1) as nat);
            }
            start_idx = end_idx;
            end_idx = end_idx + crate::bot::search::outputs_at_depth(i + 1);
            i = i + 1;
        }
        (start_idx, end_idx)
    }

    /// The search result that ends with placement `best_idx`: the placements leading to it, first
    /// to last, and its score.
    pub fn from_best_index(
        search_depth: usize,
        upcoming_shapes: UpcomingShapes,
        configs: &[ComputedDropConfig],
        scores: &[MoveResultScore],
        best_idx: usize,
    ) -> (res: Self)
        requires
            configs_linked(configs@),
            best_idx < configs@.len(),
            best_idx < scores@.len(),
        ensures
            res.search_depth == search_depth,
            res.upcoming_shapes == upcoming_shapes,
            res.drops@ == config_chain(configs@, best_idx as int).map_values(
                |c: ComputedDropConfig| MovementDescriptor::of_config(c),
            ),
            res.score == scores@[best_idx as int],
    {
        let mut next_config_idx = best_idx;
        let mut moves: Vec<MovementDescriptor> = Vec::new();
        let ghost tail: Seq<ComputedDropConfig> = Seq::empty();
        loop
            invariant_except_break
                config_chain(configs@, best_idx as int) == config_chain(configs@, next_config_idx as int)
                    + tail,
                moves@ == tail.map_values(|c: ComputedDropConfig| MovementDescriptor::of_config(c)),
            invariant
                configs_linked(configs@),
                next_config_idx < configs@.len(),
            ensures
                moves@ == config_chain(configs@, best_idx as int).map_values(
                    |c: ComputedDropConfig| MovementDescriptor::of_config(c),
                ),
            decreases next_config_idx,
        {
            let cfg = configs[next_config_idx];
            assert(configs@[next_config_idx as int] == cfg);
            moves.insert(0, MovementDescriptor::from_drop_config(&cfg));
            proof {
                tail = seq![cfg] + tail;
                assert(moves@ =~= tail.map_values(|c: ComputedDropConfig| MovementDescriptor::of_config(c)));
            }
            if cfg.src_field_idx == 0 {
                assert(config_chain(configs@, next_config_idx as int) == seq![cfg]);
                assert(config_chain(configs@, best_idx as int) =~= tail);
                break ;
            }
            assert(config_chain(configs@, next_config_idx as int) == config_chain(
                configs@,
                cfg.src_field_idx as int - 1,
            ).push(cfg));
            assert(config_chain(configs@, best_idx as int) =~= config_chain(
                configs@,
                cfg.src_field_idx as int - 1,
            ) + tail);
            next_config_idx = cfg.src_field_idx as usize - 1;
        }
        ComputedDropSearchResults {
            search_depth,
            upcoming_shapes,
            drops: moves,
            score: scores[best_idx],
        }
    }
}

/// Carries out the placements on a copy of `src_state` and scores the field they reach.
pub fn evaluate_moves_cpu(src_state: &GameState, moves: &[MovementDescriptor]) -> (res: (
    GameState,
    MoveResultScore,
))
    requires
        src_state.wf(),
        moves_ok(src_state@, moves@),
        total_lines(moves_run(src_state@, moves@).1) <= u8::MAX,
    ensures
        res.0.wf(),
        res.0@ == moves_run(src_state@, moves@).0,
        res.1 == score_of(moves_run(src_state@, moves@).1, field_bits(res.0@.field)),
{
    let (gs, score, _) = crate::bot::evaluate_moves_cpu(src_state, moves);
    (gs, score)
}

} // verus!
