use vstd::prelude::*;

use crate::game_state::LockResult;

verus! {

/// Lines to clear to reach the next level.
pub const LINES_PER_LEVEL: i32 = 10;

/// A player's cleared lines and level.
#[derive(Clone, Copy, PartialEq, Eq, Structural, Debug)]
pub struct LevelProgress {
    pub lines_cleared: i32,
    pub level: i32,
    pub lines_to_next_level: i32,
}

/// The progress after a lock: cleared lines count towards the next level; reaching it raises
/// the level by one and starts a new count. A lock that ends the game changes nothing.
pub open spec fn progressed(p: LevelProgress, lr: LockResult) -> LevelProgress {
    match lr {
        LockResult::GameOver => p,
        LockResult::Success { lines_cleared } => {
            let to_next = p.lines_to_next_level - lines_cleared;
            if to_next <= 0 {
                LevelProgress {
                    lines_cleared: (p.lines_cleared + lines_cleared) as i32,
                    level: (p.level + 1) as i32,
                    lines_to_next_level: LINES_PER_LEVEL,
                }
            } else {
                LevelProgress {
                    lines_cleared: (p.lines_cleared + lines_cleared) as i32,
                    level: p.level,
                    lines_to_next_level: to_next as i32,
                }
            }
        },
    }
}

/// Applying the lock result stays within `i32`.
pub open spec fn can_progress(p: LevelProgress, lr: LockResult) -> bool {
    match lr {
        LockResult::GameOver => true,
        LockResult::Success { lines_cleared } => {
            &&& i32::MIN <= p.lines_cleared + lines_cleared <= i32::MAX
            &&& i32::MIN <= p.lines_to_next_level - lines_cleared <= i32::MAX
            &&& p.level < i32::MAX
        },
    }
}

impl LevelProgress {
    /// Level 1, nothing cleared yet.
    pub fn new() -> (res: Self)
        ensures
            res == (LevelProgress { lines_cleared: 0, level: 1, lines_to_next_level: LINES_PER_LEVEL }),
    {
        LevelProgress { lines_cleared: 0, level: 1, lines_to_next_level: LINES_PER_LEVEL }
    }

    /// Counts the lines a lock cleared.
    pub fn apply_lock_result(&mut self, lr: &LockResult)
        requires
            can_progress(*old(self), *lr),
        ensures
            *final(self) == progressed(*old(self), *lr),
    {
        match lr {
            LockResult::GameOver => {},
            LockResult::Success { lines_cleared } => {
                self.lines_cleared = self.lines_cleared + *lines_cleared;
                self.lines_to_next_level = self.lines_to_next_level - *lines_cleared;
                if self.lines_to_next_level <= 0 {
                    self.level = self.level + 1;
                    self.lines_to_next_level = LINES_PER_LEVEL;
                }
            },
        }
    }
}

/// While cleared-line counts are between 0 and `LINES_PER_LEVEL`, the count towards the next
/// level stays between 1 and `LINES_PER_LEVEL`, and the level rises by at most one per lock.
pub proof fn lemma_progress_bounds(p: LevelProgress, lr: LockResult)
    requires
        1 <= p.lines_to_next_level <= LINES_PER_LEVEL,
        p.level < i32::MAX,
        lr matches LockResult::Success { lines_cleared } ==> 0 <= lines_cleared <= LINES_PER_LEVEL,
    ensures
        1 <= progressed(p, lr).lines_to_next_level <= LINES_PER_LEVEL,
        p.level <= progressed(p, lr).level <= p.level + 1,
{
}

} // verus!
