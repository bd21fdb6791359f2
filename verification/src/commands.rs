//! The command surface: the placement and fill operations expressed as
//! data.  Each function validates its configuration and yields the
//! command to issue to the windowing system — moving the focused window
//! into its grid cell, or resizing it to fill that cell — leaving the
//! issuing itself to the binary.

use vstd::prelude::*;

use crate::errors::ConfigurationError;
use crate::fill::compute_fill_size;
use crate::fill::spec_fill_height;
use crate::fill::spec_fill_width;
use crate::geometry::CellIndex;
use crate::geometry::DecorationInsets;
use crate::geometry::GridShape;
use crate::geometry::Point;
use crate::geometry::Size;
use crate::geometry::WindowId;
use crate::geometry::decoration_wf;
use crate::placement::compute_position;
use crate::placement::spec_position_x;
use crate::placement::spec_position_y;

verus! {

/// A command to issue to the windowing system.
#[derive(Clone, Copy, PartialEq, Eq, Structural, Debug)]
pub enum WindowCommand {
    /// Move the window's content area so its top-left corner sits at
    /// `position`.
    Move { id: WindowId, position: Point },
    /// Resize the window's content area to `size`.
    Resize { id: WindowId, size: Size },
}

/// The command that moves a window to a position.
pub fn move_window(id: WindowId, x: i32, y: i32) -> (c: WindowCommand)
    ensures
        c == (WindowCommand::Move { id, position: Point { x, y } }),
{
    WindowCommand::Move { id, position: Point { x, y } }
}

/// The command that resizes a window's content area.
pub fn resize_window(id: WindowId, width: i32, height: i32) -> (c: WindowCommand)
    ensures
        c == (WindowCommand::Resize { id, size: Size { width, height } }),
{
    WindowCommand::Resize { id, size: Size { width, height } }
}

/// Place the window in its grid cell: validate the grid shape and the
/// cell, then compute the clamped centred position for the measured
/// display and window geometry (the window inflated by the decoration
/// insets when decorated), and yield the move command.  A non-positive
/// grid dimension and a cell outside the grid are distinct
/// configuration errors; no command is produced for them.
pub fn move_window_in_grid(
    id: WindowId,
    nrows: i32,
    ncolumns: i32,
    row: i32,
    column: i32,
    decoration: &Option<DecorationInsets>,
    display: &Size,
    window: &Size,
) -> (r: Result<WindowCommand, ConfigurationError>)
    requires
        display.non_negative(),
        window.non_negative(),
        decoration_wf(*decoration),
    ensures
        (nrows <= 0 || ncolumns <= 0) ==> r == Err::<WindowCommand, ConfigurationError>(
            ConfigurationError::NonPositiveGrid { rows: nrows, columns: ncolumns },
        ),
        (nrows > 0 && ncolumns > 0 && !(0 <= row < nrows && 0 <= column < ncolumns)) ==> r == Err::<
            WindowCommand,
            ConfigurationError,
        >(ConfigurationError::CellOutOfRange { row, column, rows: nrows, columns: ncolumns }),
        (nrows > 0 && ncolumns > 0 && 0 <= row < nrows && 0 <= column < ncolumns) ==> (r matches
            Ok(c) && c matches WindowCommand::Move { id: command_id, position } && command_id == id
            && position.x == spec_position_x(
            *display,
            *window,
            *decoration,
            (GridShape { rows: nrows, columns: ncolumns }),
            (CellIndex { row, column }),
        ) && position.y == spec_position_y(
            *display,
            *window,
            *decoration,
            (GridShape { rows: nrows, columns: ncolumns }),
            (CellIndex { row, column }),
        )),
{
    if nrows <= 0 || ncolumns <= 0 {
        return Err(ConfigurationError::NonPositiveGrid { rows: nrows, columns: ncolumns });
    }
    if row < 0 || row >= nrows || column < 0 || column >= ncolumns {
        return Err(
            ConfigurationError::CellOutOfRange { row, column, rows: nrows, columns: ncolumns },
        );
    }
    let grid = GridShape { rows: nrows, columns: ncolumns };
    let cell = CellIndex { row, column };
    let position = compute_position(display, window, decoration, &grid, &cell);
    Ok(WindowCommand::Move { id, position })
}

/// Resize the window to fill its grid cell: validate the grid shape,
/// compute the fill size for the measured display, the resolved gaps and
/// the decoration insets, and yield the resize command.  A non-positive
/// grid dimension is a configuration error; no command is produced for
/// it.
pub fn resize_window_to_fill(
    id: WindowId,
    nrows: i32,
    ncolumns: i32,
    gap_w: i32,
    gap_h: i32,
    decoration: &Option<DecorationInsets>,
    display: &Size,
) -> (r: Result<WindowCommand, ConfigurationError>)
    requires
        display.non_negative(),
        gap_w >= 0,
        gap_h >= 0,
        decoration_wf(*decoration),
        (nrows > 0 && ncolumns > 0) ==> spec_fill_width(
            *display,
            (GridShape { rows: nrows, columns: ncolumns }),
            (Size { width: gap_w, height: gap_h }),
            *decoration,
        ) >= i32::MIN && spec_fill_height(
            *display,
            (GridShape { rows: nrows, columns: ncolumns }),
            (Size { width: gap_w, height: gap_h }),
            *decoration,
        ) >= i32::MIN,
    ensures
        (nrows <= 0 || ncolumns <= 0) ==> r == Err::<WindowCommand, ConfigurationError>(
            ConfigurationError::NonPositiveGrid { rows: nrows, columns: ncolumns },
        ),
        (nrows > 0 && ncolumns > 0) ==> (r matches Ok(c) && c matches
            WindowCommand::Resize { id: command_id, size } && command_id == id && size.width
            == spec_fill_width(
            *display,
            (GridShape { rows: nrows, columns: ncolumns }),
            (Size { width: gap_w, height: gap_h }),
            *decoration,
        ) && size.height == spec_fill_height(
            *display,
            (GridShape { rows: nrows, columns: ncolumns }),
            (Size { width: gap_w, height: gap_h }),
            *decoration,
        )),
{
    if nrows <= 0 || ncolumns <= 0 {
        return Err(ConfigurationError::NonPositiveGrid { rows: nrows, columns: ncolumns });
    }
    let grid = GridShape { rows: nrows, columns: ncolumns };
    let gaps = Size { width: gap_w, height: gap_h };
    let size = compute_fill_size(display, &grid, &gaps, decoration);
    Ok(WindowCommand::Resize { id, size })
}

} // verus!
