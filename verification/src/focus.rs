//! The two panels of the dashboard and the screen areas they occupy.
use vstd::prelude::*;

verus! {

/// The panel that receives keyboard input.
#[derive(Debug, Clone, Copy, PartialEq, Eq, Structural)]
pub enum FocusPanel {
    Jobs,
    Log,
}

impl FocusPanel {
    /// The other panel.
    pub open spec fn other(self) -> FocusPanel {
        match self {
            FocusPanel::Jobs => FocusPanel::Log,
            FocusPanel::Log => FocusPanel::Jobs,
        }
    }
}

/// An area of the screen, in character cells.
#[derive(Debug, Clone, Copy, PartialEq, Eq, Structural)]
pub struct Rect {
    /// The column of the left edge.
    pub x: u16,
    /// The row of the top edge.
    pub y: u16,
    pub width: u16,
    pub height: u16,
}

impl Rect {
    /// The cell at `col` and `row` lies in the area.
    pub open spec fn holds(self, col: int, row: int) -> bool {
        &&& self.x <= col < self.x + self.width
        &&& self.y <= row < self.y + self.height
    }

    /// The area without cells at the top left corner of the screen.
    pub open spec fn empty() -> Rect {
        Rect { x: 0, y: 0, width: 0, height: 0 }
    }
}

impl Default for Rect {
    fn default() -> (r: Rect)
        ensures
            r == Rect::empty(),
    {
        Rect { x: 0, y: 0, width: 0, height: 0 }
    }
}

/// Whether the cell at `col` and `row` lies in `rect`.
pub fn rect_contains(rect: Rect, col: u16, row: u16) -> (inside: bool)
    ensures
        inside == rect.holds(col as int, row as int),
{
    let right: u32 = rect.x as u32 + rect.width as u32;
    let below: u32 = rect.y as u32 + rect.height as u32;
    col >= rect.x && (col as u32) < right && row >= rect.y && (row as u32) < below
}

} // verus!
