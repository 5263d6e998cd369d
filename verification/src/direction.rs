//! The four cursor movement directions.

use vstd::prelude::*;

verus! {

/// A direction in which the cursor can be asked to move.
#[derive(Debug, Clone, Copy, PartialEq, Eq, Structural)]
pub enum Direction {
    Up,
    Down,
    Left,
    Right,
}

} // verus!
