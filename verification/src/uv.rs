//! Texture-coordinate pair.

use vstd::prelude::*;

verus! {

/// One 2D texture coordinate.
///
/// The two components are the little-endian bit patterns of the 32-bit IEEE
/// floats stored in the file.  The codec moves them verbatim and never
/// interprets them numerically, so no invariant holds beyond field presence.
#[derive(Clone, Copy, Debug, PartialEq, Eq, Structural)]
pub struct UV {
    /// Bit pattern of the U component.
    pub u: u32,
    /// Bit pattern of the V component.
    pub v: u32,
}

} // verus!
