//! Axis-aligned rectangles in grid coordinates.

use crate::traits::Region;
use vstd::prelude::*;

verus! {

/// A rectangle given by its top-left corner and its size.
///
/// A rectangle of width or height zero is legal and holds no point.
#[derive(Clone, Copy, Debug, PartialEq, Eq, Structural)]
pub struct Rect {
    pub left: u32,
    pub top: u32,
    pub width: u32,
    pub height: u32,
}

/// The part of `rect`, moved by `(dx, dy)`, that lies within an image of the
/// given dimensions; `None` if no point of it does.
pub open spec fn translated(rect: Rect, dx: int, dy: int, width: int, height: int) -> Option<Rect> {
    let left = if rect.left + dx < 0 {
        0
    } else {
        rect.left + dx
    };
    let top = if rect.top + dy < 0 {
        0
    } else {
        rect.top + dy
    };
    let right = if rect.left + dx + rect.width > width {
        width
    } else {
        rect.left + dx + rect.width
    };
    let bottom = if rect.top + dy + rect.height > height {
        height
    } else {
        rect.top + dy + rect.height
    };
    if left < right && top < bottom {
        Some(
            Rect {
                left: left as u32,
                top: top as u32,
                width: (right - left) as u32,
                height: (bottom - top) as u32,
            },
        )
    } else {
        None
    }
}

/// A rectangle that was moved and clipped lies within the image and holds
/// the points of the image that the moved rectangle holds, and no others;
/// where nothing is returned, the moved rectangle holds no point of the image.
pub proof fn lemma_translated(rect: Rect, dx: int, dy: int, width: int, height: int)
    requires
        0 <= width <= u32::MAX,
        0 <= height <= u32::MAX,
    ensures
        translated(rect, dx, dy, width, height) matches Some(c) ==> {
            &&& c.spec_nonempty()
            &&& c.spec_fits(width, height)
            &&& forall|x: int, y: int|
                #[trigger] c.spec_holds(x, y) <==> 0 <= x < width && 0 <= y < height
                    && rect.spec_holds_moved(dx, dy, x, y)
        },
        translated(rect, dx, dy, width, height) is None ==> forall|x: int, y: int|
            0 <= x < width && 0 <= y < height ==> !#[trigger] rect.spec_holds_moved(dx, dy, x, y),
{
}

impl Rect {
    /// The rectangle holds at least one point.
    pub open spec fn spec_nonempty(&self) -> bool {
        self.width > 0 && self.height > 0
    }

    /// The rectangle lies within the columns `0..width` and the rows `0..height`.
    pub open spec fn spec_fits(&self, width: int, height: int) -> bool {
        self.left + self.width <= width && self.top + self.height <= height
    }

    /// The point `(x, y)` lies in the rectangle.
    pub open spec fn spec_holds(&self, x: int, y: int) -> bool {
        self.left <= x < self.left + self.width && self.top <= y < self.top + self.height
    }

    /// The point `(x, y)` lies in the rectangle moved by `(dx, dy)`.
    pub open spec fn spec_holds_moved(&self, dx: int, dy: int, x: int, y: int) -> bool {
        self.spec_holds(x - dx, y - dy)
    }

    /// Create the rectangle with top-left corner `(left, top)` and the given size.
    pub fn new(left: u32, top: u32, width: u32, height: u32) -> (r: Rect)
        ensures
            r == (Rect { left, top, width, height }),
    {
        Rect { left, top, width, height }
    }

    /// The first column of the rectangle.
    pub fn left(&self) -> (v: u32)
        ensures
            v == self.left,
    {
        self.left
    }

    /// The first row of the rectangle.
    pub fn top(&self) -> (v: u32)
        ensures
            v == self.top,
    {
        self.top
    }

    /// The number of columns of the rectangle.
    pub fn width(&self) -> (v: u32)
        ensures
            v == self.width,
    {
        self.width
    }

    /// The number of rows of the rectangle.
    pub fn height(&self) -> (v: u32)
        ensures
            v == self.height,
    {
        self.height
    }

    /// The last column of a rectangle that has one.
    pub fn right(&self) -> (v: u32)
        requires
            self.width > 0,
            self.left + self.width - 1 <= u32::MAX,
        ensures
            v == self.left + self.width - 1,
    {
        self.left + (self.width - 1)
    }

    /// The last row of a rectangle that has one.
    pub fn bottom(&self) -> (v: u32)
        requires
            self.height > 0,
            self.top + self.height - 1 <= u32::MAX,
        ensures
            v == self.top + self.height - 1,
    {
        self.top + (self.height - 1)
    }

    /// The size of the rectangle as a `(width, height)` tuple.
    pub fn size(&self) -> (s: (u32, u32))
        ensures
            s == (self.width, self.height),
    {
        (self.width, self.height)
    }

    /// Return `true` if the rectangle lies entirely within an image of the
    /// given dimensions.
    pub fn fits_dimensions(&self, width: u32, height: u32) -> (b: bool)
        ensures
            b == self.spec_fits(width as int, height as int),
    {
        self.left <= width && self.width <= width - self.left && self.top <= height && self.height
            <= height - self.top
    }
}

impl Region for Rect {
    open spec fn spec_contains(&self, x: int, y: int) -> bool {
        self.spec_holds(x, y)
    }

    fn contains(&self, x: u32, y: u32) -> (b: bool) {
        self.left <= x && x - self.left < self.width && self.top <= y && y - self.top < self.height
    }
}

} // verus!
