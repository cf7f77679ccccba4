pub mod bitmap_field;
pub mod bot;
pub mod consts;
pub mod field;
pub mod game_state;
pub mod input;
pub mod progress;
pub mod proto;
pub mod shape_bag;
pub mod shapes;
pub mod tetromino;
pub mod upcoming;

use vstd::prelude::*;

verus! {

/// Adds two numbers.
pub fn add(left: u64, right: u64) -> (sum: u64)
    requires
        left + right <= u64::MAX,
    ensures
        sum == left + right,
{
    left + right
}

} // verus!
