//! What is decided, before any arithmetic, when a font is varied.

use vstd::prelude::*;

pub mod normalize;
pub mod variation;

verus! {

/// What can go wrong when a font is varied.
#[derive(Debug, Clone, Copy, PartialEq, Eq, Structural)]
pub enum ImtUtilError {
    /// The glyph has no variation data.
    NoData,
    /// There is not one coordinate per axis, or a coordinate lies outside
    /// the range from -1 to 1.
    InvalidCoords,
    /// The font lacks a table that the request needs.
    MissingTable,
    /// The tables of the font do not fit together.
    MalformedFont,
}

} // verus!
