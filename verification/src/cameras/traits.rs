//! Camera features reported together with their settings.
use vstd::prelude::*;

verus! {

/// A camera feature together with its current setting.
#[derive(Clone, Copy, Debug, PartialEq, Eq, Structural)]
pub enum CameraCapabilities {
    /// Gain, with its value.
    Gain(u32),
    /// ISO, with its value.
    ISO(u32),
    /// Offset, with its value.
    Offset(u32),
    /// Whether a cooler is present.
    Cooler(bool),
    /// Whether region-of-interest readout is supported.
    Roi(bool),
    /// Whether binning is supported.
    Binning(bool),
}

} // verus!
