//! Rectangles in absolute terminal coordinates, and point hit-testing.
//!
//! Containment is half-open on both axes: a rectangle of zero width or
//! height contains no point at all.

use vstd::prelude::*;

verus! {

/// An axis-aligned rectangle: `(x, y)` is the top-left corner.
#[derive(Clone, Copy, Debug, PartialEq, Eq, Structural)]
pub struct Rect {
    pub x: u16,
    pub y: u16,
    pub width: u16,
    pub height: u16,
}

impl Rect {
    /// The exclusive right edge, as a mathematical integer.
    pub open spec fn spec_right(self) -> int {
        self.x + self.width
    }

    /// The exclusive bottom edge, as a mathematical integer.
    pub open spec fn spec_bottom(self) -> int {
        self.y + self.height
    }

    pub fn new(x: u16, y: u16, width: u16, height: u16) -> (r: Rect)
        ensures
            r == (Rect { x, y, width, height }),
    {
        Rect { x, y, width, height }
    }

    pub fn left(&self) -> (r: u16)
        ensures
            r == self.x,
    {
        self.x
    }

    pub fn top(&self) -> (r: u16)
        ensures
            r == self.y,
    {
        self.y
    }
}

/// Half-open containment: the left and top edges belong to the rectangle,
/// the right and bottom edges do not.
pub open spec fn rect_contains(bounds: Rect, x: int, y: int) -> bool {
    &&& bounds.x <= x < bounds.spec_right()
    &&& bounds.y <= y < bounds.spec_bottom()
}

/// True iff the point `(x, y)` lies inside `bounds`, half-open on both axes.
pub fn does_bound_intersect_coordinate(x: u16, y: u16, bounds: Rect) -> (r: bool)
    ensures
        r == rect_contains(bounds, x as int, y as int),
{
    x >= bounds.x && x - bounds.x < bounds.width && y >= bounds.y && y - bounds.y < bounds.height
}

/// A point exactly on the right or bottom edge is never contained, while a
/// point on the left or top edge is, whenever its other coordinate is in
/// range.
pub proof fn lemma_hit_test_half_open(bounds: Rect, x: int, y: int)
    ensures
        !rect_contains(bounds, bounds.spec_right(), y),
        !rect_contains(bounds, x, bounds.spec_bottom()),
        bounds.width > 0 && bounds.y <= y < bounds.spec_bottom() ==> rect_contains(
            bounds,
            bounds.x as int,
            y,
        ),
        bounds.height > 0 && bounds.x <= x < bounds.spec_right() ==> rect_contains(
            bounds,
            x,
            bounds.y as int,
        ),
{
}

} // verus!
