//! Rectangles in physical screen coordinates.

use vstd::prelude::*;

verus! {

/// A rectangle that holds its left and top edges but not its right and bottom
/// ones.
#[derive(Clone, Copy, Debug, PartialEq, Eq, Structural)]
pub struct SimpleRect {
    pub left: i32,
    pub top: i32,
    pub right: i32,
    pub bottom: i32,
}

impl SimpleRect {
    /// How far the right edge lies to the right of the left one.
    pub open spec fn span_x(self) -> int {
        self.right - self.left
    }

    /// How far the bottom edge lies below the top one.
    pub open spec fn span_y(self) -> int {
        self.bottom - self.top
    }

    /// The rectangle holds no pixel.
    pub open spec fn empty(self) -> bool {
        self.span_x() <= 0 || self.span_y() <= 0
    }

    /// The rectangle holds the pixel at `(x, y)`.
    pub open spec fn covers(self, x: int, y: int) -> bool {
        self.left <= x < self.right && self.top <= y < self.bottom
    }

    /// The overlap of two rectangles.
    pub open spec fn overlap(self, other: SimpleRect) -> SimpleRect {
        SimpleRect {
            left: if self.left >= other.left {
                self.left
            } else {
                other.left
            },
            top: if self.top >= other.top {
                self.top
            } else {
                other.top
            },
            right: if self.right <= other.right {
                self.right
            } else {
                other.right
            },
            bottom: if self.bottom <= other.bottom {
                self.bottom
            } else {
                other.bottom
            },
        }
    }

    /// The width, for edges no further apart than an `i32` can say.
    pub fn width(self) -> (width: i32)
        requires
            i32::MIN <= self.span_x() <= i32::MAX,
        ensures
            width == self.span_x(),
    {
        self.right - self.left
    }

    /// The height, for edges no further apart than an `i32` can say.
    pub fn height(self) -> (height: i32)
        requires
            i32::MIN <= self.span_y() <= i32::MAX,
        ensures
            height == self.span_y(),
    {
        self.bottom - self.top
    }

    /// The width of any rectangle.
    pub fn wide_width(self) -> (width: i64)
        ensures
            width == self.span_x(),
    {
        self.right as i64 - self.left as i64
    }

    /// The height of any rectangle.
    pub fn wide_height(self) -> (height: i64)
        ensures
            height == self.span_y(),
    {
        self.bottom as i64 - self.top as i64
    }

    /// Tests for a rectangle without pixels.
    pub fn is_empty(self) -> (result: bool)
        ensures
            result == self.empty(),
    {
        self.wide_width() <= 0 || self.wide_height() <= 0
    }

    /// The overlap of two rectangles; it is empty where they do not meet.
    pub fn intersect(self, other: SimpleRect) -> (result: SimpleRect)
        ensures
            result == self.overlap(other),
    {
        SimpleRect {
            left: if self.left >= other.left {
                self.left
            } else {
                other.left
            },
            top: if self.top >= other.top {
                self.top
            } else {
                other.top
            },
            right: if self.right <= other.right {
                self.right
            } else {
                other.right
            },
            bottom: if self.bottom <= other.bottom {
                self.bottom
            } else {
                other.bottom
            },
        }
    }
}

/// The overlap holds exactly the pixels that both rectangles hold.
pub proof fn overlap_holds_shared_pixels(a: SimpleRect, b: SimpleRect, x: int, y: int)
    ensures
        a.overlap(b).covers(x, y) <==> a.covers(x, y) && b.covers(x, y),
{
}

/// A rectangle is empty exactly when it holds no pixel.
pub proof fn empty_means_no_pixel(a: SimpleRect)
    ensures
        a.empty() <==> forall|x: int, y: int| !a.covers(x, y),
{
    if !a.empty() {
        assert(a.covers(a.left as int, a.top as int));
    }
}

/// The order in which rectangles are intersected does not matter.
pub proof fn overlap_is_symmetric(a: SimpleRect, b: SimpleRect, c: SimpleRect)
    ensures
        a.overlap(b) == b.overlap(a),
        a.overlap(a) == a,
        a.overlap(b).overlap(c) == a.overlap(b.overlap(c)),
{
}

} // verus!
