//! Error taxonomy of the parsing side of the codec.

use vstd::prelude::*;

verus! {

/// Why a parse of a BD1 buffer failed.
///
/// No partial result ever accompanies an error: the whole parse fails
/// atomically.
#[derive(Clone, Copy, Debug, PartialEq, Eq, Structural)]
pub enum ParseError {
    /// The buffer ended before a field of the fixed layout was complete.
    TruncatedInput,
    /// A texture filename record is not valid UTF-8 text.
    TextDecodeError,
    /// An arithmetic narrowing failed.  Kept for taxonomy completeness;
    /// the fixed-width reads of this codec never produce it.
    IntegerConversionError,
}

} // verus!
