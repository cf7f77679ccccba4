use vstd::prelude::*;

use std::cmp::Ordering;

use crate::consts::NUM_SHAPES;
use crate::shapes::Shape;

verus! {

/// The four cells of a tetromino as `[x, y]` byte pairs.
#[derive(Clone, Copy, Debug)]
pub struct TetrominoPositions {
    pub pos: [[u8; 2]; 4],
}

/// One placement the bot evaluates, as laid out for a compute kernel.
#[derive(Clone, Copy, PartialEq, Eq, Structural, Debug, Default)]
pub struct DropConfig {
    pub tetromino_idx: u32,
    pub next_tetromino_idx: u32,
    pub initial_field_idx: u32,
    pub dest_field_idx: u32,
    pub left_shifts: u8,
    pub right_shifts: u8,
}

/// How good the field after a sequence of placements is.
#[derive(Clone, Copy, PartialEq, Eq, Structural, Debug)]
pub struct MoveResultScore {
    pub game_over: bool,
    pub lines_cleared: u8,
    pub height: u8,
    pub covered: u16,
}

/// Where each rotation of a shape starts for the bot, and where it starts for a player.
#[derive(Clone, Copy, Debug)]
pub struct ShapeStartingPositions {
    pub bot_positions: [TetrominoPositions; 4],
    pub player_position: TetrominoPositions,
}

/// The starting positions of every shape, indexed by shape index.
#[derive(Clone, Copy, Debug)]
pub struct ShapePositionConfig {
    pub starting_positions: [ShapeStartingPositions; NUM_SHAPES],
}

/// The table indices of the active shape and the upcoming ones.
pub type UpcomingShapeIndexes = [u8; 7];

/// The bot's search state for one depth, as laid out for a compute kernel.
#[derive(Clone, Copy, Debug)]
pub struct SearchParams {
    pub cur_search_depth: u8,
    pub upcoming_shape_idxs: UpcomingShapeIndexes,
}

/// One placement of the bot search: place shape `shape_idx`, turned `cw_rotations` times and
/// shifted, onto field `src_field_idx`; the result is field `dest_field_idx`.
#[derive(Clone, Copy, PartialEq, Eq, Structural, Debug)]
pub struct ComputedDropConfig {
    pub shape_idx: u8,
    pub cw_rotations: u8,
    pub src_field_idx: u32,
    pub dest_field_idx: u32,
    pub left_shifts: u8,
    pub right_shifts: u8,
}

/// The active shape followed by the upcoming ones, as far as the bot looks ahead.
pub type UpcomingShapes = [Shape; 7];

/// The order of scores: not losing beats losing; then more cleared lines, then fewer covered
/// cells, then a lower stack is better.
pub open spec fn score_order(a: MoveResultScore, b: MoveResultScore) -> Ordering {
    if a.game_over != b.game_over {
        if a.game_over {
            Ordering::Less
        } else {
            Ordering::Greater
        }
    } else if a.lines_cleared != b.lines_cleared {
        if a.lines_cleared < b.lines_cleared {
            Ordering::Less
        } else {
            Ordering::Greater
        }
    } else if a.covered != b.covered {
        if a.covered > b.covered {
            Ordering::Less
        } else {
            Ordering::Greater
        }
    } else if a.height != b.height {
        if a.height > b.height {
            Ordering::Less
        } else {
            Ordering::Greater
        }
    } else {
        Ordering::Equal
    }
}

pub open spec fn reversed(o: Ordering) -> Ordering {
    match o {
        Ordering::Less => Ordering::Greater,
        Ordering::Equal => Ordering::Equal,
        Ordering::Greater => Ordering::Less,
    }
}

impl MoveResultScore {
    pub fn init(game_over: bool, lines_cleared: u8, height: u8, covered: u16) -> (res: Self)
        ensures
            res == (MoveResultScore { game_over, lines_cleared, height, covered }),
    {
        MoveResultScore { game_over, lines_cleared, height, covered }
    }

    pub fn is_game_over(&self) -> (res: bool)
        ensures
            res == self.game_over,
    {
        self.game_over
    }

    /// Compares two scores; the better score is the greater one.
    pub fn cmp(&self, other: &Self) -> (res: Ordering)
        ensures
            res == score_order(*self, *other),
    {
        if self.game_over != other.game_over {
            if self.game_over {
                Ordering::Less
            } else {
                Ordering::Greater
            }
        } else if self.lines_cleared != other.lines_cleared {
            if self.lines_cleared < other.lines_cleared {
                Ordering::Less
            } else {
                Ordering::Greater
            }
        } else if self.covered != other.covered {
            if self.covered > other.covered {
                Ordering::Less
            } else {
                Ordering::Greater
            }
        } else if self.height != other.height {
            if self.height > other.height {
                Ordering::Less
            } else {
                Ordering::Greater
            }
        } else {
            Ordering::Equal
        }
    }
}

impl PartialOrd for MoveResultScore {
    fn partial_cmp(&self, other: &Self) -> (res: Option<Ordering>) {
        Some(self.cmp(other))
    }
}

impl vstd::std_specs::cmp::PartialOrdSpecImpl for MoveResultScore {
    open spec fn obeys_partial_cmp_spec() -> bool {
        true
    }

    open spec fn partial_cmp_spec(&self, other: &Self) -> Option<Ordering> {
        Some(score_order(*self, *other))
    }
}

/// Scores compare equal exactly when they are equal.
pub proof fn lemma_score_order_equal(a: MoveResultScore, b: MoveResultScore)
    ensures
        (score_order(a, b) == Ordering::Equal) == (a == b),
{
}

/// Swapping the scores reverses the comparison.
pub proof fn lemma_score_order_antisymmetric(a: MoveResultScore, b: MoveResultScore)
    ensures
        score_order(b, a) == reversed(score_order(a, b)),
{
}

/// The order of scores is transitive.
pub proof fn lemma_score_order_transitive(a: MoveResultScore, b: MoveResultScore, c: MoveResultScore)
    requires
        score_order(a, b) == Ordering::Less,
        score_order(b, c) == Ordering::Less,
    ensures
        score_order(a, c) == Ordering::Less,
{
}

/// A score that did not end the game is better than one that did, whatever else they hold.
pub proof fn lemma_score_not_losing_wins(a: MoveResultScore, b: MoveResultScore)
    requires
        !a.game_over,
        b.game_over,
    ensures
        score_order(a, b) == Ordering::Greater,
        score_order(b, a) == Ordering::Less,
{
}

/// Between scores that agree on ending the game, more cleared lines is better, whatever their
/// heights and covered cells.
pub proof fn lemma_score_more_lines_wins(a: MoveResultScore, b: MoveResultScore)
    requires
        a.game_over == b.game_over,
        a.lines_cleared > b.lines_cleared,
    ensures
        score_order(a, b) == Ordering::Greater,
        score_order(b, a) == Ordering::Less,
{
}

/// Between scores that agree on ending the game and on cleared lines, fewer covered cells is
/// better, whatever their heights: covered cells outrank the height.
pub proof fn lemma_score_fewer_covered_wins(a: MoveResultScore, b: MoveResultScore)
    requires
        a.game_over == b.game_over,
        a.lines_cleared == b.lines_cleared,
        a.covered < b.covered,
    ensures
        score_order(a, b) == Ordering::Greater,
        score_order(b, a) == Ordering::Less,
{
}

/// Between scores that agree on everything but the height, the lower stack is better.
pub proof fn lemma_score_lower_stack_wins(a: MoveResultScore, b: MoveResultScore)
    requires
        a.game_over == b.game_over,
        a.lines_cleared == b.lines_cleared,
        a.covered == b.covered,
        a.height < b.height,
    ensures
        score_order(a, b) == Ordering::Greater,
        score_order(b, a) == Ordering::Less,
{
}

} // verus!
