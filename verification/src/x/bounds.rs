//! The part of the screen that the window's coordinates are mapped to.

use vstd::prelude::*;

verus! {

/// A range of absolute coordinates.
#[derive(Debug, Clone, Copy, PartialEq, Eq, Structural)]
pub struct Bounds {
    pub lower: i32,
    pub upper: i32,
    pub size: i32,
}

impl Bounds {
    /// Whether the size is the distance between the ends.
    pub open spec fn is_consistent(self) -> bool {
        self.size == self.upper - self.lower
    }

    /// The range between two coordinates.
    pub fn between(lower: i32, upper: i32) -> (bounds: Bounds)
        requires
            i32::MIN <= upper - lower <= i32::MAX,
        ensures
            bounds.lower == lower,
            bounds.upper == upper,
            bounds.is_consistent(),
    {
        Bounds { lower, upper, size: upper - lower }
    }
}

impl Default for Bounds {
    fn default() -> (bounds: Self)
        ensures
            bounds == (Bounds { lower: 0, upper: 0, size: 0 }),
    {
        Bounds { lower: 0, upper: 0, size: 0 }
    }
}

/// A range along each axis.
#[derive(Debug, Clone, Copy, PartialEq, Eq, Structural)]
pub struct Rect {
    pub x: Bounds,
    pub y: Bounds,
}

impl Rect {
    /// The rectangle of no size at the origin.
    pub open spec fn nothing() -> Rect {
        Rect {
            x: Bounds { lower: 0, upper: 0, size: 0 },
            y: Bounds { lower: 0, upper: 0, size: 0 },
        }
    }
}

impl Default for Rect {
    fn default() -> (rect: Self)
        ensures
            rect == Rect::nothing(),
    {
        Rect { x: Bounds::default(), y: Bounds::default() }
    }
}

} // verus!
