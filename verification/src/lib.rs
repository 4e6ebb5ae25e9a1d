//! Core cell/plane/pixel subsystem of a terminal-graphics engine.
//!
//! The crate models the data that a text-UI renderer works on: 32-bit RGBA
//! pixels, colour channels with alpha mode and default-colour flags, cells
//! holding a glyph cluster with styling, and planes, the rectangular grids of
//! cells that drawing operations (lines, boxes, gradients) mutate.

use vstd::prelude::*;

pub mod align;
pub mod boxes;
pub mod cell;
pub mod channel;
pub mod menu;
pub mod pixel;
pub mod plane;

verus! {

/// The ways an operation on a plane can fail. Every error is reported to the
/// immediate caller; none is fatal and none is retried internally.
#[derive(Debug, Clone, Copy, PartialEq, Eq, Structural)]
pub enum NcError {
    /// Coordinates fall outside the plane's current dimensions.
    OutOfBounds,
    /// Box or gradient dimensions violate their minimums or exceed the
    /// plane's bounds.
    InvalidGeometry,
    /// A glyph cluster could not be resolved on a read.
    GlyphReadError,
}

} // verus!
