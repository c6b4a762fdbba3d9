//! Camera features and the ranges of gain, ISO and offset.
use vstd::prelude::*;

verus! {

/// A feature that a camera driver may report.
#[derive(Clone, Copy, Debug, PartialEq, Eq, Structural)]
pub enum CameraCapabilities {
    /// Color sensor.
    Color,
    /// Monochrome sensor.
    Mono,
    /// Adjustable gain.
    Gain,
    /// Adjustable ISO.
    ISO,
    /// Adjustable offset.
    Offset,
    /// Controllable sensor cooler.
    Cooler,
    /// Region-of-interest readout.
    Roi,
    /// Pixel binning.
    Binning,
    /// ST-4 style pulse guiding.
    PulseGuide,
}

/// Gain range a camera accepts.
#[derive(Clone, Copy, Debug, PartialEq, Eq, Structural)]
pub struct VastCameraGain {
    /// Lowest gain.
    pub min: u32,
    /// Highest gain.
    pub max: u32,
    /// Increment between accepted values.
    pub step: u32,
}

/// ISO range a camera accepts.
#[derive(Clone, Copy, Debug, PartialEq, Eq, Structural)]
pub struct VastCameraISO {
    /// Lowest ISO.
    pub min: u32,
    /// Highest ISO.
    pub max: u32,
    /// Factor between consecutive ISO stops.
    pub multiplier: u32,
}

/// Offset (black level) range a camera accepts.
#[derive(Clone, Copy, Debug, PartialEq, Eq, Structural)]
pub struct VastCameraOffset {
    /// Lowest offset.
    pub min: u32,
    /// Highest offset.
    pub max: u32,
    /// Increment between accepted values.
    pub step: u32,
}

} // verus!
