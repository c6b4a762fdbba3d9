//! Guide outputs, pulses and guide session settings.
use vstd::prelude::*;

use crate::base::errors::{VastError, VastErrorType, VastResult};
use crate::types::camera::VastCameraGuideDirection;

verus! {

/// High-level internal guider runtime state.
#[derive(Clone, Copy, Debug, PartialEq, Eq, Structural)]
pub enum VastGuiderState {
    /// Guider idle and not processing frames.
    Idle,
    /// Searching for usable guide star candidates.
    Searching,
    /// Running calibration moves.
    Calibrating,
    /// Actively guiding on locked star.
    Guiding,
    /// Temporarily paused by user or workflow.
    Paused,
    /// Locked star lost and reacquisition in progress.
    LostStar,
    /// Stopping pending frame loop or pulse drain.
    Stopping,
    /// Fatal guider error state.
    Error,
}

/// Preferred correction output target.
#[derive(Clone, Copy, Debug, PartialEq, Eq, Structural)]
pub enum VastGuideOutputKind {
    /// ST4 pulse guiding via guide camera output port.
    CameraSt4,
    /// Pulse guiding via mount backend.
    MountPulse,
}

/// Calibration reuse policy for future sessions.
#[derive(Clone, Copy, Debug, PartialEq, Eq, Structural)]
pub enum VastGuideCalibrationReuse {
    /// Always require fresh calibration.
    Never,
    /// Reuse calibration during current process lifetime.
    Session,
    /// Reuse persisted calibration when context still matches.
    Persistent,
}

/// Reason guide lock failed or was dropped.
#[derive(Clone, Copy, Debug, PartialEq, Eq, Structural)]
pub enum VastGuideLostStarReason {
    /// No candidate satisfied acquisition filters.
    NoCandidates,
    /// Previous star signal dropped below validity threshold.
    LowSignal,
    /// Star saturated or shape became invalid.
    InvalidShape,
    /// Search window reached image edge.
    OutOfBounds,
    /// Frame rejected due to clouds/noise/bad statistics.
    BadFrame,
    /// User or workflow explicitly cancelled guiding.
    Cancelled,
}

/// One guide pulse command in backend-neutral form.
#[derive(Clone, Copy, Debug, PartialEq, Eq, Structural)]
pub struct VastGuidePulse {
    /// Pulse direction.
    pub direction: VastCameraGuideDirection,
    /// Pulse duration in milliseconds.
    pub duration_millis: u32,
}

impl VastGuidePulse {
    /// Validates pulse duration: it must be greater than zero.
    pub fn validate(&self) -> (r: VastResult<()>)
        ensures
            r is Ok <==> self.duration_millis > 0,
            r is Err ==> r->Err_0.error_type == VastErrorType::InvalidInput,
    {
        if self.duration_millis == 0 {
            return Err(
                VastError::new(
                    VastErrorType::InvalidInput,
                    crate::text::owned("guide pulse duration must be greater than zero"),
                ),
            );
        }
        Ok(())
    }
}

/// Backend-neutral guide output used by internal guider runtime.
pub trait VastGuideOutput: Send + Sync {
    /// Returns concrete output backend kind.
    fn kind(&self) -> VastGuideOutputKind;

    /// Dispatches one guide pulse.
    fn pulse(&mut self, pulse: VastGuidePulse) -> VastResult<()>;

    /// Stops all active or queued guide pulses.
    fn stop_all(&mut self) -> VastResult<()>;
}

/// The integer settings of a guide session are usable: exposure, binning,
/// ROI size, maximum pulse and lost-frame allowance greater than zero where
/// given.
pub open spec fn guide_integers_valid(
    exposure_millis: u32,
    binning: Option<u32>,
    roi: Option<(u32, u32, u32, u32)>,
    max_pulse_millis: u32,
    max_lost_frames: u32,
) -> bool {
    &&& exposure_millis > 0
    &&& (binning matches Some(b) ==> b > 0)
    &&& (roi matches Some((_, _, w, h)) ==> w > 0 && h > 0)
    &&& max_pulse_millis > 0
    &&& max_lost_frames > 0
}

fn guide_invalid(message: &str) -> (e: VastError)
    ensures
        e.error_type == VastErrorType::InvalidInput,
{
    VastError::new(VastErrorType::InvalidInput, crate::text::owned(message))
}

/// Checks the integer settings of a guide session; the error names the
/// first unusable one.
pub fn validate_guide_integers(
    exposure_millis: u32,
    binning: Option<u32>,
    roi: Option<(u32, u32, u32, u32)>,
    max_pulse_millis: u32,
    max_lost_frames: u32,
) -> (r: VastResult<()>)
    ensures
        r is Ok <==> guide_integers_valid(exposure_millis, binning, roi, max_pulse_millis, max_lost_frames),
        r is Err ==> r->Err_0.error_type == VastErrorType::InvalidInput,
{
    if exposure_millis == 0 {
        return Err(guide_invalid("guide exposure must be greater than zero"));
    }
    if let Some(bin) = binning {
        if bin == 0 {
            return Err(guide_invalid("guide binning must be greater than zero"));
        }
    }
    if let Some((_, _, width, height)) = roi {
        if width == 0 || height == 0 {
            return Err(guide_invalid("guide ROI dimensions must be greater than zero"));
        }
    }
    if max_pulse_millis == 0 {
        return Err(guide_invalid("guide max pulse must be greater than zero"));
    }
    if max_lost_frames == 0 {
        return Err(guide_invalid("guide max_lost_frames must be greater than zero"));
    }
    Ok(())
}

} // verus!
