//! Draw anything, to anything.
//!
//! A tree of drawable shapes with cascading visual style, a depth-first cascade that
//! resolves the effective style of every node, and an SVG backend that turns the
//! resolved instructions into a serialized document.
use vstd::prelude::*;

pub mod canvas;
pub mod color;
pub mod debug;
pub mod drawing;
pub mod geometry;
pub mod image;
pub mod number;
pub mod path;
pub mod placement;
pub mod style;
pub mod svg;
pub mod text;
pub mod xml;

verus! {

} // verus!
