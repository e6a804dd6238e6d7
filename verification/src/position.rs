//! An immutable two-dimensional integer coordinate used throughout
//! layout and drawing.

use vstd::prelude::*;

verus! {

/// A point on the character grid: `x` is the column, `y` the row.
#[derive(Clone, Copy, Debug, PartialEq, Eq, Structural)]
pub struct Position {
    pub x: i32,
    pub y: i32,
}

impl Position {
    pub fn new(x: i32, y: i32) -> (r: Self)
        ensures
            r.x == x,
            r.y == y,
    {
        Self { x, y }
    }
}

impl Default for Position {
    /// The default position is the origin.
    fn default() -> (r: Self)
        ensures
            r.x == 0,
            r.y == 0,
    {
        Self { x: 0, y: 0 }
    }
}

} // verus!
