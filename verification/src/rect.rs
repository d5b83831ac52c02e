//! Rectangles of the terminal.

use vstd::prelude::*;

verus! {

/// A rectangle of terminal cells.
#[derive(Clone, Copy, Debug, PartialEq, Eq, Structural)]
pub struct Rect {
    pub x: u16,
    pub y: u16,
    pub width: u16,
    pub height: u16,
}

impl Default for Rect {
    fn default() -> (rect: Rect)
        ensures
            rect == (Rect { x: 0, y: 0, width: 0, height: 0 }),
    {
        Rect { x: 0, y: 0, width: 0, height: 0 }
    }
}

impl Rect {
    pub fn new(x: u16, y: u16, width: u16, height: u16) -> (rect: Rect)
        ensures
            rect == (Rect { x, y, width, height }),
    {
        Rect { x, y, width, height }
    }

    /// The cell at a column and row is inside.
    pub open spec fn holds(self, column: u16, row: u16) -> bool {
        &&& self.x <= column < self.x + self.width
        &&& self.y <= row < self.y + self.height
    }

    /// Whether the cell at a column and row is inside.
    pub fn contains(self, column: u16, row: u16) -> (inside: bool)
        ensures
            inside == self.holds(column, row),
    {
        column >= self.x && (column as u32) < self.x as u32 + self.width as u32 && row >= self.y && (
        row as u32) < self.y as u32 + self.height as u32
    }
}

/// An area holds its first cell and its last one, and none beside them.
pub proof fn law_areas_hold_their_cells(area: Rect)
    requires
        area.width > 0,
        area.height > 0,
        area.x + area.width <= u16::MAX,
        area.y + area.height <= u16::MAX,
    ensures
        area.holds(area.x, area.y),
        area.holds((area.x + area.width - 1) as u16, (area.y + area.height - 1) as u16),
        !area.holds((area.x + area.width) as u16, area.y),
        !area.holds(area.x, (area.y + area.height) as u16),
        area.x > 0 ==> !area.holds((area.x - 1) as u16, area.y),
        area.y > 0 ==> !area.holds(area.x, (area.y - 1) as u16),
{
}

} // verus!
