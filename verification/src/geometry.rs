//! Screen rectangles and positions in terminal cells, as the layout logic reads them.
use vstd::prelude::*;

verus! {

/// A rectangle of cells: its top-left corner and its size.
#[derive(Debug, Clone, Copy, PartialEq, Eq, Structural)]
pub struct Rect {
    pub x: u16,
    pub y: u16,
    pub width: u16,
    pub height: u16,
}

/// A cell position.
#[derive(Debug, Clone, Copy, PartialEq, Eq, Structural)]
pub struct Position {
    pub x: u16,
    pub y: u16,
}

/// `a + b`, capped at the largest `u16`.
pub open spec fn sat_add16(a: u16, b: u16) -> u16 {
    if a + b > u16::MAX { u16::MAX } else { (a + b) as u16 }
}

/// `a - b`, or 0 when `b` is larger.
pub open spec fn sat_sub16(a: u16, b: u16) -> u16 {
    if a >= b { (a - b) as u16 } else { 0 }
}

/// The rectangle at `(x, y)` of the given size, its width and height cut so that its right
/// and bottom edges stay within the coordinate range.
pub open spec fn rect_new(x: u16, y: u16, width: u16, height: u16) -> Rect {
    Rect { x, y, width: (sat_add16(x, width) - x) as u16, height: (sat_add16(y, height) - y) as u16 }
}

/// The first column right of the rectangle, capped at the largest `u16`.
pub open spec fn rect_right(r: Rect) -> u16 {
    sat_add16(r.x, r.width)
}

/// The first row below the rectangle, capped at the largest `u16`.
pub open spec fn rect_bottom(r: Rect) -> u16 {
    sat_add16(r.y, r.height)
}

/// Whether a position lies inside the rectangle.
pub open spec fn rect_contains(r: Rect, p: Position) -> bool {
    r.x <= p.x && p.x < rect_right(r) && r.y <= p.y && p.y < rect_bottom(r)
}

impl Rect {
    /// The rectangle at `(x, y)` of the given size, cut to the coordinate range.
    pub fn new(x: u16, y: u16, width: u16, height: u16) -> (r: Rect)
        ensures
            r == rect_new(x, y, width, height),
    {
        Rect { x, y, width: x.saturating_add(width) - x, height: y.saturating_add(height) - y }
    }

    /// The first column right of the rectangle.
    pub fn right(self) -> (r: u16)
        ensures
            r == rect_right(self),
    {
        self.x.saturating_add(self.width)
    }

    /// The first row below the rectangle.
    pub fn bottom(self) -> (r: u16)
        ensures
            r == rect_bottom(self),
    {
        self.y.saturating_add(self.height)
    }

    /// Whether a position lies inside the rectangle.
    pub fn contains(self, p: Position) -> (r: bool)
        ensures
            r == rect_contains(self, p),
    {
        p.x >= self.x && p.x < self.right() && p.y >= self.y && p.y < self.bottom()
    }
}

/// A rectangle's content area below a one-row title: the same columns, one row lower and
/// one row shorter.
pub open spec fn below_title(r: Rect) -> Rect {
    rect_new(r.x, (r.y + 1) as u16, r.width, sat_sub16(r.height, 1))
}

/// The content area below a one-row title.
pub fn below_title_exec(r: Rect) -> (c: Rect)
    requires
        r.y < u16::MAX,
    ensures
        c == below_title(r),
{
    Rect::new(r.x, r.y + 1, r.width, r.height.saturating_sub(1))
}

/// The inside of a bordered box drawn over `r`, as ratatui's `Block::inner` gives it for
/// borders on all sides: one column in from the left (not past the right edge), one row down
/// (not past the bottom), two columns narrower and two rows shorter, all saturating.
pub open spec fn bordered_inner(r: Rect) -> Rect {
    let x1 = sat_add16(r.x, 1);
    let y1 = sat_add16(r.y, 1);
    Rect {
        x: if x1 <= rect_right(r) { x1 } else { rect_right(r) },
        y: if y1 <= rect_bottom(r) { y1 } else { rect_bottom(r) },
        width: sat_sub16(r.width, 2),
        height: sat_sub16(r.height, 2),
    }
}

/// The inside of a box bordered on all sides (see `bordered_inner`).
pub fn bordered_inner_exec(r: Rect) -> (c: Rect)
    ensures
        c == bordered_inner(r),
{
    let x1 = r.x.saturating_add(1);
    let y1 = r.y.saturating_add(1);
    let right = r.right();
    let bottom = r.bottom();
    Rect {
        x: if x1 <= right { x1 } else { right },
        y: if y1 <= bottom { y1 } else { bottom },
        width: r.width.saturating_sub(2),
        height: r.height.saturating_sub(2),
    }
}

} // verus!
