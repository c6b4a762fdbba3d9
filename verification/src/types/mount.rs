//! Mount status, pier side and tracking types.
use vstd::prelude::*;

verus! {

/// Broad physical mount geometry.
#[derive(Clone, Copy, Debug, PartialEq, Eq, Structural)]
pub enum VastMountType {
    /// Equatorial mount.
    Eq,
    /// Altitude-azimuth mount.
    AltAZ,
}

/// Tracking mode abstraction shared across mount implementations.
///
/// `Custom` uses a custom tracking value in thousandths of sidereal rate, so
/// `1000` means sidereal rate, `997` is approximately solar, and `962` is
/// approximately lunar.
#[derive(Clone, Copy, Debug, PartialEq, Eq, Structural)]
pub enum VastTrackingMode {
    /// Tracking disabled.
    Off,
    /// Sidereal tracking rate.
    Sidereal,
    /// Solar tracking rate.
    Solar,
    /// Lunar tracking rate.
    Lunar,
    /// Custom tracking rate.
    Custom,
}

/// Display text of a tracking mode.
pub open spec fn tracking_mode_name(m: VastTrackingMode) -> Seq<char> {
    match m {
        VastTrackingMode::Off => "off"@,
        VastTrackingMode::Sidereal => "sidereal"@,
        VastTrackingMode::Solar => "solar"@,
        VastTrackingMode::Lunar => "lunar"@,
        VastTrackingMode::Custom => "custom"@,
    }
}

impl VastTrackingMode {
    /// The mode's display text.
    pub fn to_string(&self) -> (r: String)
        ensures
            r@ == tracking_mode_name(*self),
    {
        let s = match self {
            VastTrackingMode::Off => "off",
            VastTrackingMode::Sidereal => "sidereal",
            VastTrackingMode::Solar => "solar",
            VastTrackingMode::Lunar => "lunar",
            VastTrackingMode::Custom => "custom",
        };
        crate::text::owned(s)
    }
}

/// The side of the pier the mount is on.
#[derive(Clone, Copy, Debug, PartialEq, Eq, Structural)]
pub enum VastMountPierSide {
    /// Telescope is on east side of pier.
    East,
    /// Telescope is on west side of pier.
    West,
}

/// High-level mount state.
#[derive(Clone, Copy, Debug, PartialEq, Eq, Structural)]
pub enum VastMountStatus {
    /// Mount is actively tracking.
    Tracking,
    /// Mount is parked.
    Parked,
    /// Mount is slewing.
    Slewing,
    /// Mount is stopped.
    Stopped,
    /// Mount status is unknown.
    Unknown,
}

/// The status of a mount that is not moving: parked when park mode is on,
/// stopped when tracking is off, tracking otherwise.
pub open spec fn resting_status(park_mode: bool, tracking_mode: VastTrackingMode) -> VastMountStatus {
    if park_mode {
        VastMountStatus::Parked
    } else if tracking_mode == VastTrackingMode::Off {
        VastMountStatus::Stopped
    } else {
        VastMountStatus::Tracking
    }
}

/// The status of a mount that is not moving (see [`resting_status`]).
pub fn resting_mount_status(park_mode: bool, tracking_mode: VastTrackingMode) -> (r: VastMountStatus)
    ensures
        r == resting_status(park_mode, tracking_mode),
{
    if park_mode {
        VastMountStatus::Parked
    } else if let VastTrackingMode::Off = tracking_mode {
        VastMountStatus::Stopped
    } else {
        VastMountStatus::Tracking
    }
}

} // verus!
