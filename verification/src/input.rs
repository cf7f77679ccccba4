use vstd::prelude::*;

use crate::game_state::{DownType, TickMutation};
use crate::shapes::{Rot, Shift};

verus! {

/// A player or bot input.
#[derive(Clone, Copy, PartialEq, Eq, Structural, Debug)]
pub enum InputType {
    ShiftEvent(Shift),
    RotateEvent(Rot),
    DownEvent,
    DropEvent,
    HoldEvent,
    EnqueueGarbageEvent(usize),
    JumpToBotStartPositionEvent,
    PerformBotMoveEvent,
}

/// An input, and whether it repeats a held key.
#[derive(Clone, Copy, PartialEq, Eq, Structural, Debug)]
pub struct InputEvent {
    pub input_type: InputType,
    pub is_repeat: bool,
}

/// The game mutations a local input asks for; bot inputs ask for none here.
pub open spec fn input_mutations(e: InputEvent) -> Seq<TickMutation> {
    match e.input_type {
        InputType::ShiftEvent(s) => seq![TickMutation::ShiftInput(s)],
        InputType::RotateEvent(r) => seq![TickMutation::RotateInput(r)],
        InputType::DownEvent => seq![
            TickMutation::DownInput(
                if e.is_repeat {
                    DownType::HoldRepeat
                } else {
                    DownType::FirstPress
                },
            ),
        ],
        InputType::DropEvent => seq![TickMutation::DropInput],
        InputType::HoldEvent => seq![TickMutation::HoldInput],
        InputType::EnqueueGarbageEvent(lines) => seq![TickMutation::EnqueueGarbage(lines)],
        InputType::JumpToBotStartPositionEvent | InputType::PerformBotMoveEvent => Seq::empty(),
    }
}

impl InputEvent {
    /// The game mutations this input asks for.
    pub fn to_tick_mutations(&self) -> (res: Vec<TickMutation>)
        ensures
            res@ == input_mutations(*self),
    {
        let mut res: Vec<TickMutation> = Vec::new();
        match self.input_type {
            InputType::ShiftEvent(s) => res.push(TickMutation::ShiftInput(s)),
            InputType::RotateEvent(r) => res.push(TickMutation::RotateInput(r)),
            InputType::DownEvent => res.push(
                TickMutation::DownInput(
                    if self.is_repeat {
                        DownType::HoldRepeat
                    } else {
                        DownType::FirstPress
                    },
                ),
            ),
            InputType::DropEvent => res.push(TickMutation::DropInput),
            InputType::HoldEvent => res.push(TickMutation::HoldInput),
            InputType::EnqueueGarbageEvent(lines) => res.push(TickMutation::EnqueueGarbage(lines)),
            InputType::JumpToBotStartPositionEvent | InputType::PerformBotMoveEvent => {},
        }
        assert(res@ =~= input_mutations(*self));
        res
    }
}

} // verus!
