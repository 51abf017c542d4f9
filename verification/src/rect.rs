//! Screen rectangles in terminal cells.

use vstd::prelude::*;

verus! {

/// The largest coordinate a terminal cell can have.
pub const MAX_COORD: u16 = 0xffff;

/// A rectangle of terminal cells: its top left corner and its size.
#[derive(Clone, Copy, Debug, PartialEq, Eq, Hash, Structural)]
pub struct Rect {
    pub x: u16,
    pub y: u16,
    pub width: u16,
    pub height: u16,
}

impl Rect {
    /// The rectangle at `(x, y)` whose size is cut down so that neither far
    /// edge passes the largest coordinate.
    pub open spec fn spec_new(x: u16, y: u16, width: u16, height: u16) -> Rect {
        Rect {
            x,
            y,
            width: if width > MAX_COORD - x { (MAX_COORD - x) as u16 } else { width },
            height: if height > MAX_COORD - y { (MAX_COORD - y) as u16 } else { height },
        }
    }

    /// The first column right of the rectangle, held at the largest coordinate.
    pub open spec fn spec_right(self) -> int {
        if self.x + self.width > MAX_COORD { MAX_COORD as int } else { self.x + self.width }
    }

    /// The first row below the rectangle, held at the largest coordinate.
    pub open spec fn spec_bottom(self) -> int {
        if self.y + self.height > MAX_COORD { MAX_COORD as int } else { self.y + self.height }
    }

    /// Whether the cell `(x, y)` lies inside the rectangle.
    pub open spec fn spec_contains(self, x: u16, y: u16) -> bool {
        &&& self.x <= x < self.spec_right()
        &&& self.y <= y < self.spec_bottom()
    }

    /// Whether both far edges stay within the largest coordinate.
    pub open spec fn in_bounds(self) -> bool {
        &&& self.x + self.width <= MAX_COORD
        &&& self.y + self.height <= MAX_COORD
    }

    /// The rectangle with rows and columns exchanged.
    pub open spec fn transposed(self) -> Rect {
        Rect { x: self.y, y: self.x, width: self.height, height: self.width }
    }

    /// The empty rectangle at the origin.
    pub open spec fn spec_zero() -> Rect {
        Rect { x: 0, y: 0, width: 0, height: 0 }
    }

    /// The empty rectangle at the origin.
    pub fn zero() -> (r: Rect)
        ensures
            r == Rect::spec_zero(),
    {
        Rect { x: 0, y: 0, width: 0, height: 0 }
    }

    /// Builds a rectangle, cutting its size down where it would pass the
    /// largest coordinate.
    pub fn new(x: u16, y: u16, width: u16, height: u16) -> (r: Rect)
        ensures
            r == Rect::spec_new(x, y, width, height),
            r.in_bounds(),
    {
        clamped_rect(x, y, width, height)
    }

    /// Whether the cell `(x, y)` lies inside the rectangle.
    pub fn contains(&self, x: u16, y: u16) -> (inside: bool)
        ensures
            inside == self.spec_contains(x, y),
    {
        rect_contains(*self, x, y)
    }
}

impl Default for Rect {
    fn default() -> (r: Rect)
        ensures
            r == Rect::spec_zero(),
    {
        Rect::zero()
    }
}

/// Calls `ratatui::layout::Rect::new`. That function keeps `x` and `y` and
/// lowers `width` to `u16::MAX - x` and `height` to `u16::MAX - y` where they
/// are larger; the contract says exactly this.
#[verifier::external_body]
fn clamped_rect(x: u16, y: u16, width: u16, height: u16) -> (r: Rect)
    ensures
        r == Rect::spec_new(x, y, width, height),
{
    let made = ratatui::layout::Rect::new(x, y, width, height);
    Rect { x: made.x, y: made.y, width: made.width, height: made.height }
}

/// Calls `ratatui::layout::Rect::contains`. That function compares the
/// position with the left and top edge and with `right()` and `bottom()`,
/// which are saturating sums; the contract says exactly this.
#[verifier::external_body]
fn rect_contains(area: Rect, x: u16, y: u16) -> (inside: bool)
    ensures
        inside == area.spec_contains(x, y),
{
    let outer = ratatui::layout::Rect { x: area.x, y: area.y, width: area.width, height: area.height };
    outer.contains(ratatui::layout::Position { x, y })
}

} // verus!
