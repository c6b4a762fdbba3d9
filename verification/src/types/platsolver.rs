//! Plate-solver backends, sources and solving hints.
use vstd::prelude::*;

use crate::types::imageformats::ImageFrame;

verus! {

/// Generic image source accepted by a plate solver.
#[derive(Clone, Debug, PartialEq, Eq)]
pub enum VastPlatesolverSource {
    /// Solve directly from in-memory image frame.
    ImageFrame(ImageFrame),
    /// Solve from image file already stored on disk (its path).
    FilePath(String),
}

/// Orientation parity hint shared by common plate-solver backends.
#[derive(Clone, Copy, Debug, PartialEq, Eq, Structural)]
pub enum VastPlatesolverParity {
    /// Do not constrain parity.
    Any,
    /// Use native image parity.
    Positive,
    /// Use mirrored image parity.
    Negative,
}

/// Plate-solver backends the library can construct.
#[derive(Clone, Copy, Debug, PartialEq, Eq, Structural)]
pub enum VastPlatesolverBackend {
    /// ASTAP.
    Astap,
    /// Astrometry.net `solve-field`.
    AstrometryNet,
}

} // verus!
