use vstd::prelude::*;

verus! {

/// Width of the playing field, in blocks.
pub const W: i32 = 10;
/// Height of the visible playing field, including the preview rows.
pub const H: i32 = 22;
/// Number of rows at the top of the visible field where new pieces appear.
pub const PREVIEW_H: i32 = 2;
/// Number of rows the field stores, including the rows above the visible field.
pub const MAX_H: i32 = 24;

pub const W_US: usize = 10;
pub const H_US: usize = 22;
pub const MAX_H_US: usize = 24;

/// Number of cells in the stored field.
pub const NUM_POSITIONS: usize = W_US * MAX_H_US;
/// Number of bytes of a packed field bitmap.
pub const FIELD_BYTES: usize = NUM_POSITIONS / 8;

/// Number of upcoming shapes shown to the player.
pub const NUM_PREVIEWS: usize = 6;
/// Number of distinct tetromino shapes.
pub const NUM_SHAPES: usize = 7;
/// Deepest look-ahead the bot search supports.
pub const MAX_SEARCH_DEPTH: usize = 6;
/// Number of placements the bot tries for each input field: 4 rotations times 10 shifts.
pub const OUTPUTS_PER_INPUT_FIELD: usize = 40;
/// Number of locks a queued garbage line waits before it rises into the field.
pub const GARBAGE_TURN_COUNT: usize = 3;

} // verus!
