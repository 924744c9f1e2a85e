//! Contains model-independent enums.

use vstd::prelude::*;

verus! {

/// A general direction.
#[derive(Copy, Clone, Debug, Eq, Hash, PartialEq, Structural)]
pub enum Direction {
    #[allow(missing_docs)]
    Left,
    #[allow(missing_docs)]
    Right,
    #[allow(missing_docs)]
    Up,
    #[allow(missing_docs)]
    Down,
}

impl Default for Direction {
    /// Returns the default direction (Left).
    fn default() -> (direction: Self)
        ensures
            direction == Direction::Left,
    {
        Direction::Left
    }
}

} // verus!
