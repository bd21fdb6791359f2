//! Gridded window placement library.
//!
//! The display is divided into an N-row by M-column grid; a window is moved
//! to the centre of a chosen cell and, optionally, resized to fill that cell
//! minus configurable gaps and window-decoration insets.  This crate holds
//! the geometry types, the token parsers for the grid, place and gap
//! descriptors, the parsers for the geometry reported by the windowing
//! tools, and the placement and fill-size calculators, each with a verified
//! contract.  Running the external tools themselves is left to the binary
//! built on top of this library.

pub mod commands;
pub mod decoration;
pub mod errors;
pub mod fill;
pub mod geometry;
pub mod placement;
pub mod queries;
pub mod text;
pub mod tokens;
