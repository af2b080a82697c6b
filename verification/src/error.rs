//! Error kinds shared by the renderer, the layout and the animator.

use vstd::prelude::*;

verus! {

/// Why an operation refused its input. Nothing is drawn or mutated when one
/// of these is returned.
#[derive(Clone, Copy, Debug, PartialEq, Eq, Structural)]
pub enum ZoneError {
    /// An argument is outside the domain of the operation: an empty raster,
    /// a disc without a positive radius, no icons, a blur without reach.
    InvalidArgument,
    /// The request reaches outside the raster it works on.
    BufferBounds,
}

} // verus!
