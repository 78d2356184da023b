//! The error taxonomy of the stitching pipeline. Every stage fails fast:
//! the first failing stage aborts the whole run with exactly one of these.

use vstd::prelude::*;

verus! {

/// One terminal error per failed run, identifying the failing stage.
/// Variants that wrap an outside failure carry its cause as a string.
#[derive(Debug, Clone)]
pub enum StitchError {
    /// A location descriptor was malformed.
    InvalidLocation,
    /// The parallel lists of input handles and MIME strings disagree in length.
    InputMismatch,
    /// A source's declared MIME type is not a supported decode format.
    UnsupportedFormat,
    /// A source could not be opened or read.
    UnreadableSource,
    /// The collection was built from zero sources.
    EmptyInput,
    /// A layout limit is set below the minimum feasible canvas size.
    LayoutInfeasible,
    /// A source passed format validation but its data could not be decoded.
    DecodeError(String),
    /// The destination's declared MIME maps to no supported container format.
    UnsupportedOutputFormat,
    /// Serializing the canvas failed; the underlying cause is preserved.
    WriteError(String),
}

} // verus!
