//! A font-data engine for OpenType fonts with TrueType outlines.
//!
//! [`parse`] reads the tables of a font file, checks them against each other
//! and states for every byte of input what is read from it or why it is
//! refused. [`util`] decides, for a point of the design space of a variable
//! font, which variations apply to a glyph, what each axis contributes and
//! which delta moves which point. [`raster`] holds what is decided in whole
//! numbers when a glyph is scaled.
//!
//! Fixed-point numbers are kept as their raw bits throughout. Arithmetic on
//! real numbers is not done here: every function below gives a decision or a
//! whole number, and says exactly which.

pub mod error;
pub mod parse;
pub mod raster;
pub mod util;
