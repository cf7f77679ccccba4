use vstd::prelude::*;

verus! {

/// The seven tetromino shapes.
#[derive(Clone, Copy, PartialEq, Eq, Structural, Hash, Debug)]
pub enum Shape {
    I,
    J,
    L,
    O,
    S,
    T,
    Z,
}

/// A horizontal movement.
#[derive(Clone, Copy, PartialEq, Eq, Structural, Hash, Debug)]
pub enum Shift {
    Left,
    Right,
}

/// A rotation direction.
#[derive(Clone, Copy, PartialEq, Eq, Structural, Hash, Debug)]
pub enum Rot {
    Cw,
    Ccw,
}

} // verus!
