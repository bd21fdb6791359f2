//! The error taxonomy: configuration errors (malformed descriptor tokens,
//! out-of-range cells, non-positive grids) and parse failures on the text
//! the windowing tools report.  Every error is fatal to the invocation;
//! each carries the offending raw value so the caller can report it.

use vstd::prelude::*;

verus! {

/// A fatal configuration error: a malformed command-line token, a cell
/// outside the grid, or a grid with a non-positive dimension.
#[derive(Clone, Debug, PartialEq, Eq)]
pub enum ConfigurationError {
    /// The grid descriptor is not `"<rows>x<columns>"` with two integers.
    InvalidGridFormat { token: String },
    /// The place descriptor is not `"<row>,<column>"` with two integers.
    InvalidPlaceFormat { token: String },
    /// The gap descriptor is not `"<h>x<v>"` with each part a
    /// non-negative integer or a non-negative decimal followed by `%`.
    InvalidGapFormat { token: String },
    /// A grid dimension is zero or negative.
    NonPositiveGrid { rows: i32, columns: i32 },
    /// The target cell lies outside the grid.
    CellOutOfRange { row: i32, column: i32, rows: i32, columns: i32 },
}

/// A fatal failure to make sense of what a windowing tool printed.
#[derive(Clone, Debug, PartialEq, Eq)]
pub enum QueryError {
    /// The tool's output does not have the expected shape; `output` is
    /// the text that could not be parsed.
    ParseFailed { output: String },
}

} // verus!
