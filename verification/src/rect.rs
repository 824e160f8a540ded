//! Rectangles of whole pixels.

use vstd::prelude::*;

verus! {

/// The pixels with `x0 <= x < x1` and `y0 <= y < y1`.
#[derive(Debug, Clone, Copy, PartialEq, Eq, Structural)]
pub struct IRect {
    pub x0: i32,
    pub y0: i32,
    pub x1: i32,
    pub y1: i32,
}

impl IRect {
    /// A rectangle from its corners.
    pub fn new(x0: i32, y0: i32, x1: i32, y1: i32) -> (r: IRect)
        ensures
            r == (IRect { x0, y0, x1, y1 }),
    {
        IRect { x0, y0, x1, y1 }
    }

    /// The number of columns, `x1 - x0`.
    pub fn width(&self) -> (w: i32)
        requires
            i32::MIN <= self.x1 - self.x0 <= i32::MAX,
        ensures
            w == self.x1 - self.x0,
    {
        self.x1 - self.x0
    }

    /// The number of rows, `y1 - y0`.
    pub fn height(&self) -> (h: i32)
        requires
            i32::MIN <= self.y1 - self.y0 <= i32::MAX,
        ensures
            h == self.y1 - self.y0,
    {
        self.y1 - self.y0
    }
}

} // verus!
