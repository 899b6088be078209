use vstd::prelude::*;

verus! {

/// The direction a galaxy map is rendered towards.
#[derive(PartialEq, Eq, Structural, Copy, Clone, Debug)]
pub enum Direction {
    Forward,
    Backward,
    Left,
    Right,
    Up,
    Down,
}

} // verus!
