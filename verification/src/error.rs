use vstd::prelude::*;

verus! {

/// Why a call on the detector was turned down.
#[derive(Clone, Copy, Debug, PartialEq, Eq, Structural)]
pub enum MotionError {
    /// The requested grid has no pixels: its width or its height is zero.
    InvalidGeometry,
    /// A frame handed to the detector does not hold four bytes for each pixel of the grid.
    BufferSizeMismatch,
}

} // verus!
