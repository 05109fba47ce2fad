//! Typed decoding failures. File I/O failures are the caller's to report;
//! everything the decoders themselves can detect is one of these kinds.
use vstd::prelude::*;

verus! {

/// The ways a decode or accessor call can fail.
#[derive(Clone, Copy, Debug, PartialEq, Eq, Structural)]
pub enum DecodeError {
    /// The first block's magic header matches no known sprite-sheet format.
    UnrecognizedFormat,
    /// The buffer cannot be split into whole records, or a record's
    /// length-prefixed name overruns its field.
    MalformedInput,
    /// A tile or object coordinate lies outside the room grid.
    OutOfBounds,
    /// A mask image's dimensions differ from the image it should cut out.
    DimensionMismatch,
}

} // verus!
