//! Value types for the layout engine: pixel sizes, positions, grid shapes,
//! cell coordinates and window-decoration insets, with their invariants.

use vstd::prelude::*;

verus! {

/// A window identifier as reported by the windowing system.
pub type WindowId = i32;

/// A pixel size.  Both the display and a window's content area are measured
/// as a `Size`; a computed fill size may be negative (meaning the requested
/// cell cannot fit any content), so the fields are signed.
#[derive(Clone, Copy, PartialEq, Eq, Structural, Debug)]
pub struct Size {
    pub width: i32,
    pub height: i32,
}

impl Size {
    /// A measured size (display or window geometry) is never negative.
    pub open spec fn non_negative(self) -> bool {
        self.width >= 0 && self.height >= 0
    }
}

/// A pixel offset from the display's top-left origin.
#[derive(Clone, Copy, PartialEq, Eq, Structural, Debug)]
pub struct Point {
    pub x: i32,
    pub y: i32,
}

/// Window-manager chrome added outside a window's reported content area.
#[derive(Clone, Copy, PartialEq, Eq, Structural, Debug)]
pub struct DecorationInsets {
    pub left: i32,
    pub right: i32,
    pub top: i32,
    pub bottom: i32,
}

impl DecorationInsets {
    /// Decoration insets are never negative.
    pub open spec fn wf(self) -> bool {
        self.left >= 0 && self.right >= 0 && self.top >= 0 && self.bottom >= 0
    }
}

/// Whether an optional decoration, if present, is well formed.
pub open spec fn decoration_wf(decoration: Option<DecorationInsets>) -> bool {
    match decoration {
        Some(d) => d.wf(),
        None => true,
    }
}

/// How the display is divided: a grid of `rows` by `columns` cells.
#[derive(Clone, Copy, PartialEq, Eq, Structural, Debug)]
pub struct GridShape {
    pub rows: i32,
    pub columns: i32,
}

impl GridShape {
    /// Both dimensions of a grid are strictly positive.
    pub open spec fn wf(self) -> bool {
        self.rows > 0 && self.columns > 0
    }
}

/// A cell of the grid, counted from the top-left corner, zero based.
#[derive(Clone, Copy, PartialEq, Eq, Structural, Debug)]
pub struct CellIndex {
    pub row: i32,
    pub column: i32,
}

impl CellIndex {
    /// Whether the cell lies inside the given grid.
    pub open spec fn within(self, grid: GridShape) -> bool {
        0 <= self.row < grid.rows && 0 <= self.column < grid.columns
    }
}

/// The width a window occupies on screen: its content width plus the
/// horizontal decoration insets, when the window is decorated.
pub open spec fn spec_effective_width(window: Size, decoration: Option<DecorationInsets>) -> int {
    match decoration {
        Some(d) => window.width + d.left + d.right,
        None => window.width as int,
    }
}

/// The height a window occupies on screen: its content height plus the
/// vertical decoration insets, when the window is decorated.
pub open spec fn spec_effective_height(window: Size, decoration: Option<DecorationInsets>) -> int {
    match decoration {
        Some(d) => window.height + d.top + d.bottom,
        None => window.height as int,
    }
}

} // verus!
