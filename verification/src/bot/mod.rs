pub mod bot_cpu;
pub mod bot_player;
pub mod bot_start_positions;
pub mod compute_types;
pub mod search;

use vstd::prelude::*;

pub use crate::bot::search::num_outputs;

use crate::bitmap_field::BitmapField;
use crate::bot::bot_player::{any_game_over, lemma_total_lines_append, lemma_total_lines_nonneg, moves_ok, moves_run, total_lines, MovementDescriptor};
use crate::bot::compute_types::{ComputedDropConfig, MoveResultScore, UpcomingShapes};
use crate::consts::{H, MAX_H, MAX_SEARCH_DEPTH, NUM_POSITIONS, W};
use crate::field::{OccupiedBlock, Pos};
use crate::game_state::{GameState, LockResult, TickResult};

verus! {

#[verifier::external_type_specification]
#[verifier::external_body]
pub struct ExAnyhowError(anyhow::Error);

/// The placements, scores and fields of a bot search.
pub trait BotResults {
    spec fn spec_configs(&self) -> Seq<ComputedDropConfig>;

    spec fn spec_scores(&self) -> Seq<MoveResultScore>;

    spec fn spec_fields(&self) -> Seq<BitmapField>;

    fn configs(&self) -> (res: &[ComputedDropConfig])
        ensures
            res@ == self.spec_configs(),
    ;

    fn scores(&self) -> (res: &[MoveResultScore])
        ensures
            res@ == self.spec_scores(),
    ;

    fn fields(&self) -> (res: &[BitmapField])
        ensures
            res@ == self.spec_fields(),
    ;
}

/// Compares the results of two searches.
pub struct BotResultsWraper<'a, T: BotResults>(pub &'a T);

/// Whether two slices of placements are equal.
fn configs_equal(a: &[ComputedDropConfig], b: &[ComputedDropConfig]) -> (res: bool)
    ensures
        res == (a@ == b@),
{
    if a.len() != b.len() {
        return false;
    }
    let mut i: usize = 0;
    while i < a.len()
        invariant
            a@.len() == b@.len(),
            i <= a@.len(),
            forall|j: int| 0 <= j < i ==> a@[j] == b@[j],
        decreases a@.len() - i,
    {
        if a[i] != b[i] {
            return false;
        }
        i = i + 1;
    }
    assert(a@ =~= b@);
    true
}

/// Whether two slices of scores are equal.
fn scores_equal(a: &[MoveResultScore], b: &[MoveResultScore]) -> (res: bool)
    ensures
        res == (a@ == b@),
{
    if a.len() != b.len() {
        return false;
    }
    let mut i: usize = 0;
    while i < a.len()
        invariant
            a@.len() == b@.len(),
            i <= a@.len(),
            forall|j: int| 0 <= j < i ==> a@[j] == b@[j],
        decreases a@.len() - i,
    {
        if a[i] != b[i] {
            return false;
        }
        i = i + 1;
    }
    assert(a@ =~= b@);
    true
}

/// Whether two slices of fields mark the same cells, field by field.
fn fields_equal(a: &[BitmapField], b: &[BitmapField]) -> (res: bool)
    ensures
        res == (a@.len() == b@.len() && forall|i: int| 0 <= i < a@.len() ==> a@[i].bits() == b@[i].bits()),
{
    if a.len() != b.len() {
        return false;
    }
    let mut i: usize = 0;
    while i < a.len()
        invariant
            a@.len() == b@.len(),
            i <= a@.len(),
            forall|j: int| 0 <= j < i ==> a@[j].bits() == b@[j].bits(),
        decreases a@.len() - i,
    {
        if a[i] != b[i] {
            return false;
        }
        i = i + 1;
    }
    true
}

impl<'a, T: BotResults> BotResultsWraper<'a, T> {
    /// The two searches produced the same placements, scores and fields.
    pub fn eq<U: BotResults>(&self, other: &BotResultsWraper<U>) -> (res: bool)
        ensures
            res == (self.0.spec_configs() == other.0.spec_configs() && self.0.spec_scores()
                == other.0.spec_scores() && self.0.spec_fields().len() == other.0.spec_fields().len()
                && forall|i: int|
                0 <= i < self.0.spec_fields().len() ==> self.0.spec_fields()[i].bits()
                    == other.0.spec_fields()[i].bits()),
    {
        let c = configs_equal(self.0.configs(), other.0.configs());
        let s = scores_equal(self.0.scores(), other.0.scores());
        let f = fields_equal(self.0.fields(), other.0.fields());
        c && s && f
    }
}

/// Something that runs the bot's search of placements.
pub trait BotContext {
    type ResultType: BotResults;

    fn compute_drop_search(
        &self,
        search_depth: usize,
        upcoming_shapes: &UpcomingShapes,
        source_state: &GameState,
    ) -> Result<Self::ResultType, anyhow::Error>
        requires
            search_depth <= MAX_SEARCH_DEPTH,
            source_state.wf(),
            source_state@.upcoming.len() >= search_depth,
    ;
}

/// Cell `(x, y)` of a packed map is marked.
pub open spec fn occ(bits: Seq<bool>, x: int, y: int) -> bool {
    bits[y * W + x]
}

/// No cell of row `y` is marked.
pub open spec fn row_clear(bits: Seq<bool>, y: int) -> bool {
    forall|x: int| 0 <= x < W ==> !#[trigger] occ(bits, x, y)
}

/// The lowest visible row at or above `y` with no marked cell, or `H`.
pub open spec fn first_clear_row(bits: Seq<bool>, y: int) -> int
    decreases H - y,
{
    if y < 0 || y >= H {
        H as int
    } else if row_clear(bits, y) {
        y
    } else {
        first_clear_row(bits, y + 1)
    }
}

/// The height of the stack: the index of the lowest visible row without marked cells.
pub open spec fn stack_height(bits: Seq<bool>) -> int {
    first_clear_row(bits, 0)
}

/// Scanning column `x` down from row `y`: the first marked row above the floor row, or the
/// floor row (or `y` itself when `y` is not above the floor).
pub open spec fn column_top(bits: Seq<bool>, x: int, y: int) -> int
    decreases y,
{
    if y <= 0 {
        y
    } else if occ(bits, x, y) {
        y
    } else {
        column_top(bits, x, y - 1)
    }
}

/// Number of unmarked cells of column `x` below row `top`.
pub open spec fn open_below(bits: Seq<bool>, x: int, top: int) -> int
    decreases top,
{
    if top <= 0 {
        0
    } else {
        open_below(bits, x, top - 1) + if !occ(bits, x, top - 1) {
            1int
        } else {
            0int
        }
    }
}

/// Covered cells of the first `n` columns: the unmarked cells below each column's top.
pub open spec fn covered_in_columns(bits: Seq<bool>, height: int, n: int) -> int
    decreases n,
{
    if n <= 0 {
        0
    } else {
        covered_in_columns(bits, height, n - 1) + open_below(
            bits,
            n - 1,
            column_top(bits, n - 1, height - 1),
        )
    }
}

/// Number of unmarked cells below the top marked cell of each column, scanning each column
/// from row `height - 1` down.
pub open spec fn covered_cells(bits: Seq<bool>, height: int) -> int {
    covered_in_columns(bits, height, W as int)
}

/// The packed map of a field.
pub open spec fn field_bits(rows: Seq<Seq<Option<OccupiedBlock>>>) -> Seq<bool> {
    Seq::new(NUM_POSITIONS as nat, |i: int| rows[i / (W as int)][i % (W as int)] is Some)
}

/// The score of a field reached by the given results.
pub open spec fn score_of(rs: Seq<TickResult>, bits: Seq<bool>) -> MoveResultScore {
    let height = stack_height(bits);
    MoveResultScore {
        game_over: any_game_over(rs),
        lines_cleared: total_lines(rs) as u8,
        height: height as u8,
        covered: covered_cells(bits, height) as u16,
    }
}

proof fn lemma_first_clear_row_range(bits: Seq<bool>, y: int)
    requires
        0 <= y <= H,
    ensures
        y <= first_clear_row(bits, y) <= H,
    decreases H - y,
{
    if y < H && !row_clear(bits, y) {
        lemma_first_clear_row_range(bits, y + 1);
    }
}

proof fn lemma_open_below_range(bits: Seq<bool>, x: int, top: int)
    ensures
        0 <= open_below(bits, x, top) <= if top > 0 { top } else { 0 },
    decreases top,
{
    if top > 0 {
        lemma_open_below_range(bits, x, top - 1);
    }
}

proof fn lemma_column_top_range(bits: Seq<bool>, x: int, y: int)
    ensures
        column_top(bits, x, y) <= y,
        y > 0 ==> column_top(bits, x, y) >= 0,
        y <= 0 ==> column_top(bits, x, y) == y,
        column_top(bits, x, y) > 0 ==> occ(bits, x, column_top(bits, x, y)),
    decreases y,
{
    if y > 0 && !occ(bits, x, y) {
        lemma_column_top_range(bits, x, y - 1);
    }
}

proof fn lemma_covered_range(bits: Seq<bool>, height: int, n: int)
    requires
        height <= MAX_H,
        0 <= n,
    ensures
        0 <= covered_in_columns(bits, height, n) <= n * MAX_H,
    decreases n,
{
    if n > 0 {
        lemma_covered_range(bits, height, n - 1);
        lemma_column_top_range(bits, n - 1, height - 1);
        lemma_open_below_range(bits, n - 1, column_top(bits, n - 1, height - 1));
    }
}

/// The index of the lowest visible row without marked cells, or `H` when every visible row has
/// one.
pub fn find_height(cf: &BitmapField) -> (res: i32)
    ensures
        res == stack_height(cf.bits()),
        0 <= res <= H,
{
    let mut y: i32 = 0;
    while y < H
        invariant
            0 <= y <= H,
            first_clear_row(cf.bits(), 0) == first_clear_row(cf.bits(), y as int),
        decreases H - y,
    {
        let mut empty_row = true;
        let mut x: i32 = 0;
        while x < W
            invariant_except_break
                empty_row,
                forall|xx: int| 0 <= xx < x ==> !#[trigger] occ(cf.bits(), xx, y as int),
            invariant
                0 <= y < H,
                0 <= x <= W,
            ensures
                empty_row == row_clear(cf.bits(), y as int),
            decreases W - x,
        {
            assert(cf.bits()[y * W + x] == cf.bit(y * W + x));
            if cf.occupied(&Pos { x, y }) {
                assert(occ(cf.bits(), x as int, y as int));
                empty_row = false;
                break ;
            }
            x = x + 1;
        }
        if empty_row {
            proof {
                lemma_first_clear_row_range(cf.bits(), 0);
            }
            return y;
        }
        y = y + 1;
    }
    H
}

/// Counts, for every column, the unmarked cells below its top marked cell, scanning each column
/// from row `height - 1` down.
pub fn find_covered(cf: &BitmapField, height: i32) -> (res: i32)
    requires
        i32::MIN + 2 <= height <= MAX_H,
    ensures
        res == covered_cells(cf.bits(), height as int),
        0 <= res <= W * MAX_H,
{
    let ghost bits = cf.bits();
    let mut count: i32 = 0;
    let mut x: i32 = 0;
    while x < W
        invariant
            0 <= x <= W,
            i32::MIN + 2 <= height <= MAX_H,
            bits == cf.bits(),
            count == covered_in_columns(bits, height as int, x as int),
            0 <= count <= x * MAX_H,
        decreases W - x,
    {
        proof {
            lemma_covered_range(bits, height as int, x + 1);
        }
        let mut y = height - 1;
        while y > 0
            invariant
                0 <= x < W,
                y <= height - 1,
                y >= 0 || y == height - 1,
                i32::MIN + 2 <= height <= MAX_H,
                column_top(bits, x as int, height - 1) == column_top(bits, x as int, y as int),
                bits == cf.bits(),
            ensures
                column_top(bits, x as int, height - 1) == y,
                y <= height - 1,
                y >= 0 || y == height - 1,
            decreases y,
        {
            assert(bits[y * W + x] == cf.bit(y * W + x));
            if cf.occupied(&Pos { x, y }) {
                break ;
            }
            y = y - 1;
        }
        let ghost top = y as int;
        assert(column_top(bits, x as int, height - 1) == top);
        y = y - 1;
        let ghost base = count;
        proof {
            lemma_open_below_range(bits, x as int, top);
        }
        while y >= 0
            invariant
                0 <= x < W,
                y < top,
                -1 <= y || y == top - 1,
                top <= height - 1,
                height <= MAX_H,
                bits == cf.bits(),
                top == column_top(bits, x as int, height - 1),
                count == base + open_below(bits, x as int, top) - open_below(bits, x as int, y + 1),
                0 <= base <= x * MAX_H,
                0 <= open_below(bits, x as int, top) <= if top > 0 { top } else { 0 },
                y >= 0 ==> 0 <= open_below(bits, x as int, y + 1) <= open_below(bits, x as int, top),
                y < 0 ==> open_below(bits, x as int, y + 1) == 0,
            decreases y + 1,
        {
            assert(bits[y * W + x] == cf.bit(y * W + x));
            proof {
                lemma_open_below_mono(bits, x as int, y as int, top);
            }
            if !cf.occupied(&Pos { x, y }) {
                count = count + 1;
            }
            y = y - 1;
        }
        x = x + 1;
    }
    count
}

proof fn lemma_open_below_mono(bits: Seq<bool>, x: int, a: int, b: int)
    requires
        0 <= a <= b,
    ensures
        open_below(bits, x, a) <= open_below(bits, x, b),
        open_below(bits, x, a) >= 0,
    decreases b - a,
{
    lemma_open_below_range(bits, x, a);
    if a < b {
        lemma_open_below_mono(bits, x, a, b - 1);
    }
}

proof fn lemma_moves_prefix(m: crate::game_state::GameModel, moves: Seq<MovementDescriptor>, k: int)
    requires
        moves_ok(m, moves),
        0 <= k <= moves.len(),
    ensures
        moves_ok(m, moves.take(k)),
        total_lines(moves_run(m, moves.take(k)).1) <= total_lines(moves_run(m, moves).1),
    decreases moves.len() - k,
{
    if k < moves.len() {
        lemma_moves_prefix(m, moves, k + 1);
        let t = moves.take(k + 1);
        assert(t.drop_last() =~= moves.take(k));
        let (m1, r1) = moves_run(m, moves.take(k));
        let (m2, r2) = crate::game_state::spec_run(m1, t.last().mutations());
        lemma_total_lines_append(r1, r2);
        lemma_total_lines_nonneg(r2);
    } else {
        assert(moves.take(k) =~= moves);
    }
}

proof fn lemma_bits_of_field(bf: BitmapField, rows: Seq<Seq<Option<OccupiedBlock>>>)
    requires
        forall|x: int, y: int|
            0 <= x < W && 0 <= y < MAX_H ==> bf.bits()[y * W + x] == (#[trigger] rows[y][x] is Some),
    ensures
        bf.bits() == field_bits(rows),
{
    assert forall|i: int| 0 <= i < NUM_POSITIONS implies bf.bits()[i] == field_bits(rows)[i] by {
        let x = i % (W as int);
        let y = i / (W as int);
        assert(i == y * W + x);
        assert(bf.bits()[y * W + x] == (rows[y][x] is Some));
    }
    assert(bf.bits() =~= field_bits(rows));
}

/// Carries out the placements on a copy of `src_state` and scores the field they reach: whether
/// some lock ended the game, the cleared lines, the stack height and the covered cells.
pub fn evaluate_moves_cpu(src_state: &GameState, moves: &[MovementDescriptor]) -> (res: (
    GameState,
    MoveResultScore,
    BitmapField,
))
    requires
        src_state.wf(),
        moves_ok(src_state@, moves@),
        total_lines(moves_run(src_state@, moves@).1) <= u8::MAX,
    ensures
        res.0.wf(),
        res.0@ == moves_run(src_state@, moves@).0,
        res.2.bits() == field_bits(res.0@.field),
        res.1 == score_of(moves_run(src_state@, moves@).1, res.2.bits()),
{
    let mut gs = src_state.clone();
    let mut game_over = false;
    let mut lines_cleared: u8 = 0;
    let ghost all = moves_run(src_state@, moves@).1;
    let mut k: usize = 0;
    while k < moves.len()
        invariant
            k <= moves@.len(),
            src_state.wf(),
            gs.wf(),
            moves_ok(src_state@, moves@),
            total_lines(all) <= u8::MAX,
            all == moves_run(src_state@, moves@).1,
            gs@ == moves_run(src_state@, moves@.take(k as int)).0,
            game_over == any_game_over(moves_run(src_state@, moves@.take(k as int)).1),
            lines_cleared == total_lines(moves_run(src_state@, moves@.take(k as int)).1),
        decreases moves@.len() - k,
    {
        proof {
            lemma_moves_prefix(src_state@, moves@, k + 1);
            assert(moves@.take(k + 1).drop_last() =~= moves@.take(k as int));
            assert(moves@.take(k + 1).last() == moves@[k as int]);
        }
        let ghost prev = moves_run(src_state@, moves@.take(k as int)).1;
        let md = moves[k];
        let tick_results = gs.tick_mutation(md.as_tick_mutations());
        let ghost step = tick_results@;
        assert(moves_run(src_state@, moves@.take(k + 1)).1 == prev + step);
        proof {
            lemma_total_lines_append(prev, step);
        }
        let mut j: usize = 0;
        while j < tick_results.len()
            invariant
                j <= step.len(),
                tick_results@ == step,
                total_lines(prev + step) <= u8::MAX,
                game_over == any_game_over(prev + step.take(j as int)),
                lines_cleared == total_lines(prev + step.take(j as int)),
            decreases step.len() - j,
        {
            let ghost before = prev + step.take(j as int);
            let ghost after = prev + step.take(j + 1);
            assert(after =~= before.push(step[j as int]));
            assert(after.drop_last() =~= before);
            proof {
                assert(step =~= step.take(j + 1) + step.skip(j + 1));
                assert(prev + step =~= after + step.skip(j + 1));
                lemma_total_lines_append(after, step.skip(j + 1));
                lemma_total_lines_nonneg(step.skip(j + 1));
            }
            match tick_results[j] {
                TickResult::Lock(LockResult::GameOver) => {
                    assert(after[after.len() - 1] == TickResult::Lock(LockResult::GameOver));
                    game_over = true;
                },
                TickResult::Lock(LockResult::Success { lines_cleared: lc }) => {
                    proof {
                        lemma_any_game_over_push(before, step[j as int]);
                    }
                    lines_cleared = lines_cleared + lc as u8;
                },
                _ => {
                    proof {
                        lemma_any_game_over_push(before, step[j as int]);
                    }
                },
            }
            j = j + 1;
        }
        assert(step.take(step.len() as int) =~= step);
        k = k + 1;
    }
    assert(moves@.take(moves@.len() as int) =~= moves@);
    let cpu_field = gs.make_bitmap_field();
    proof {
        lemma_bits_of_field(cpu_field, gs@.field);
    }
    let height = find_height(&cpu_field);
    let covered = find_covered(&cpu_field, height);
    let score = MoveResultScore::init(game_over, lines_cleared, height as u8, covered as u16);
    (gs, score, cpu_field)
}

proof fn lemma_any_game_over_push(rs: Seq<TickResult>, r: TickResult)
    requires
        r != TickResult::Lock(LockResult::GameOver),
    ensures
        any_game_over(rs.push(r)) == any_game_over(rs),
{
    if any_game_over(rs) {
        let i = choose|i: int| 0 <= i < rs.len() && rs[i] == TickResult::Lock(LockResult::GameOver);
        assert(rs.push(r)[i] == rs[i]);
    }
    if any_game_over(rs.push(r)) {
        let i = choose|i: int| 0 <= i < rs.push(r).len() && rs.push(r)[i] == TickResult::Lock(LockResult::GameOver);
        assert(i < rs.len());
        assert(rs[i] == rs.push(r)[i]);
    }
}

proof fn lemma_column_top_above(bits: Seq<bool>, x: int, y: int, y1: int)
    requires
        0 < y1 <= y,
        occ(bits, x, y1),
    ensures
        y1 <= column_top(bits, x, y) <= y,
        occ(bits, x, column_top(bits, x, y)),
    decreases y,
{
    if !occ(bits, x, y) {
        lemma_column_top_above(bits, x, y - 1, y1);
    }
}

proof fn lemma_open_below_hole(bits: Seq<bool>, x: int, y0: int, top: int)
    requires
        0 <= y0 < top,
        !occ(bits, x, y0),
    ensures
        open_below(bits, x, top) >= 1,
    decreases top,
{
    if y0 < top - 1 {
        lemma_open_below_hole(bits, x, y0, top - 1);
        lemma_open_below_range(bits, x, top - 1);
    } else {
        lemma_open_below_range(bits, x, top - 1);
    }
}

proof fn lemma_open_below_full(bits: Seq<bool>, x: int, top: int)
    requires
        forall|y: int| 0 <= y < top ==> #[trigger] occ(bits, x, y),
    ensures
        open_below(bits, x, top) == 0,
    decreases top,
{
    if top > 0 {
        lemma_open_below_full(bits, x, top - 1);
    }
}

proof fn lemma_covered_in_columns_ge(bits: Seq<bool>, height: int, n: int, x: int)
    requires
        height <= MAX_H,
        0 <= x < n,
    ensures
        covered_in_columns(bits, height, n) >= open_below(bits, x, column_top(bits, x, height - 1)),
    decreases n,
{
    lemma_covered_range(bits, height, n - 1);
    lemma_column_top_range(bits, n - 1, height - 1);
    lemma_open_below_range(bits, n - 1, column_top(bits, n - 1, height - 1));
    if x < n - 1 {
        lemma_covered_in_columns_ge(bits, height, n - 1, x);
    }
}

/// Every column counts, the leftmost one included: where column `x` has a marked cell at row
/// `y1` below row `height`, the covered count is at least the number of unmarked cells of that
/// column below row `y1`; in particular one unmarked cell under a marked one counts.
pub proof fn lemma_covered_counts_column(bits: Seq<bool>, height: int, x: int, y1: int)
    requires
        height <= MAX_H,
        0 <= x < W,
        0 < y1 < height,
        occ(bits, x, y1),
    ensures
        covered_cells(bits, height) >= open_below(bits, x, y1),
        forall|y0: int| 0 <= y0 < y1 && !#[trigger] occ(bits, x, y0) ==> covered_cells(bits, height) >= 1,
{
    lemma_column_top_above(bits, x, height - 1, y1);
    let top = column_top(bits, x, height - 1);
    lemma_open_below_mono(bits, x, y1, top);
    lemma_covered_in_columns_ge(bits, height, W as int, x);
    assert forall|y0: int| 0 <= y0 < y1 && !#[trigger] occ(bits, x, y0) implies covered_cells(
        bits,
        height,
    ) >= 1 by {
        lemma_open_below_hole(bits, x, y0, y1);
    }
}

proof fn lemma_covered_in_columns_zero(bits: Seq<bool>, height: int, n: int)
    requires
        0 <= n <= W,
        forall|x: int, y0: int, y1: int|
            0 <= x < W && 0 <= y0 < y1 < height && #[trigger] occ(bits, x, y1) ==> #[trigger] occ(
                bits,
                x,
                y0,
            ),
    ensures
        covered_in_columns(bits, height, n) == 0,
    decreases n,
{
    if n > 0 {
        lemma_covered_in_columns_zero(bits, height, n - 1);
        let x = n - 1;
        let top = column_top(bits, x, height - 1);
        lemma_column_top_range(bits, x, height - 1);
        if top > 0 {
            assert(occ(bits, x, top));
            assert forall|y: int| 0 <= y < top implies #[trigger] occ(bits, x, y) by {
                assert(occ(bits, x, top));
            }
            lemma_open_below_full(bits, x, top);
        }
    }
}

/// A field whose columns have no unmarked cell under a marked one, below row `height`, has no
/// covered cells.
pub proof fn lemma_no_holes_no_covered(bits: Seq<bool>, height: int)
    requires
        forall|x: int, y0: int, y1: int|
            0 <= x < W && 0 <= y0 < y1 < height && #[trigger] occ(bits, x, y1) ==> #[trigger] occ(
                bits,
                x,
                y0,
            ),
    ensures
        covered_cells(bits, height) == 0,
{
    lemma_covered_in_columns_zero(bits, height, W as int);
}

/// Cell `(x, y0)` is covered below row `height`: it is unmarked, and a marked cell of the same
/// column lies above it, below row `height`.
pub open spec fn is_covered(bits: Seq<bool>, height: int, x: int, y0: int) -> bool {
    &&& 0 <= y0
    &&& !occ(bits, x, y0)
    &&& exists|y1: int| y0 < y1 < height && #[trigger] occ(bits, x, y1)
}

/// Number of covered cells of column `x` in rows `0..k`.
pub open spec fn covered_in_column(bits: Seq<bool>, height: int, x: int, k: int) -> int
    decreases k,
{
    if k <= 0 {
        0
    } else {
        covered_in_column(bits, height, x, k - 1) + if is_covered(bits, height, x, k - 1) {
            1int
        } else {
            0int
        }
    }
}

/// Number of covered cells of columns `0..n`.
pub open spec fn count_covered(bits: Seq<bool>, height: int, n: int) -> int
    decreases n,
{
    if n <= 0 {
        0
    } else {
        count_covered(bits, height, n - 1) + covered_in_column(bits, height, n - 1, height)
    }
}

proof fn lemma_column_top_clear_above(bits: Seq<bool>, x: int, y: int, y1: int)
    requires
        column_top(bits, x, y) < y1 <= y,
    ensures
        !occ(bits, x, y1),
    decreases y,
{
    if y > 0 && !occ(bits, x, y) && y1 < y {
        lemma_column_top_clear_above(bits, x, y - 1, y1);
    }
}

proof fn lemma_covered_in_column(bits: Seq<bool>, height: int, x: int, k: int)
    requires
        1 <= height,
        0 <= k <= height,
    ensures
        covered_in_column(bits, height, x, k) == open_below(
            bits,
            x,
            if k < column_top(bits, x, height - 1) { k } else { column_top(bits, x, height - 1) },
        ),
    decreases k,
{
    let top = column_top(bits, x, height - 1);
    lemma_column_top_range(bits, x, height - 1);
    if k > 0 {
        lemma_covered_in_column(bits, height, x, k - 1);
        let y0 = k - 1;
        if y0 < top {
            assert(occ(bits, x, top));
            if !occ(bits, x, y0) {
                assert(is_covered(bits, height, x, y0));
            }
        } else {
            assert(!is_covered(bits, height, x, y0)) by {
                if is_covered(bits, height, x, y0) {
                    let y1 = choose|y1: int| y0 < y1 < height && #[trigger] occ(bits, x, y1);
                    lemma_column_top_clear_above(bits, x, height - 1, y1);
                }
            }
        }
    }
}

proof fn lemma_count_covered(bits: Seq<bool>, height: int, n: int)
    ensures
        covered_in_columns(bits, height, n) == count_covered(bits, height, n),
    decreases n,
{
    if n > 0 {
        lemma_count_covered(bits, height, n - 1);
        let x = n - 1;
        if height >= 1 {
            lemma_covered_in_column(bits, height, x, height);
            lemma_column_top_range(bits, x, height - 1);
        } else {
            lemma_column_top_range(bits, x, height - 1);
        }
    }
}

/// The covered count is the number of covered cells, over every column from `0` to `W - 1`:
/// unmarked cells with a marked cell above them in the same column, below row `height`.
pub proof fn lemma_covered_cells_count(bits: Seq<bool>, height: int)
    ensures
        covered_cells(bits, height) == count_covered(bits, height, W as int),
{
    lemma_count_covered(bits, height, W as int);
}

} // verus!
