//! Error taxonomy of the pipeline. Every error is fatal: the pipeline never
//! retries, blends, or produces partial output.

use vstd::prelude::*;

verus! {

/// Why startup validation failed, before any frame was processed.
#[derive(Clone, Copy, Debug, PartialEq, Eq, Structural)]
pub enum StartupFault {
    /// Fewer than two input streams were supplied.
    TooFewInputs,
    /// The input at this position could not be read or its header parsed.
    UnreadableInput(usize),
    /// The inputs do not all share one width.
    WidthMismatch,
    /// The inputs do not all share one height.
    HeightMismatch,
}

/// Why a frame set pulled mid-pipeline was structurally incompatible.
#[derive(Clone, Copy, Debug, PartialEq, Eq, Structural)]
pub enum StructuralFault {
    /// Some layers were exhausted before others.
    FrameCountMismatch,
    /// The frames of one iteration do not all share one duration.
    DurationMismatch,
    /// A frame's pixel buffer does not cover the shared geometry.
    FrameGeometryMismatch,
}

/// A fatal pipeline error, surfaced to the caller instead of aborting the
/// process.
#[derive(Clone, Copy, Debug, PartialEq, Eq, Structural)]
pub enum CompositeError {
    /// Input unreadable, header unparsable, or geometry disagreement across
    /// inputs; raised before any frame is processed.
    StartupError(StartupFault),
    /// Frame-count or duration disagreement across layers, raised
    /// mid-pipeline.
    StructuralMismatchError(StructuralFault),
    /// A pixel's alpha value (carried here) is neither fully opaque nor fully
    /// transparent; partial transparency is unsupported by design.
    UnsupportedAlphaError(u8),
    /// Malformed frame data in the layer at this position, mid-stream.
    DecodeError(usize),
    /// The underlying serialization of the output stream failed.
    EncodingError,
}

} // verus!
