//! Simulated camera: presets, settings rules and frame geometry.
use vstd::prelude::*;

use crate::base::errors::{VastError, VastErrorType, VastResult};
use crate::text::{chars_eq_str, owned, str_chars};
use crate::types::camera::{
    camera_format_bytes_per_pixel, CameraFrameFormat, VastCameraCapExposure, VastCameraCapGain,
    VastCameraCapOffset, VastCameraDriver, VastCameraID, VastCameraInfo, VastCameraSettings,
};

verus! {

/// Identifier of the simulated camera.
pub const DEFAULT_CAMERA_ID: &'static str = "fake-camera-0";

/// Name of the simulated camera.
pub const DEFAULT_CAMERA_NAME: &'static str = "Fake Native Camera";

/// Default sensor offset.
pub const DEFAULT_SENSOR_OFFSET: u32 = 512;

/// Default exposure in microseconds.
pub const DEFAULT_EXPOSURE_US: u64 = 1_000_000;

fn invalid_input(message: &str) -> (e: VastError)
    ensures
        e.error_type == VastErrorType::InvalidInput,
{
    VastError::new(VastErrorType::InvalidInput, owned(message))
}

fn camera_error(message: &str) -> (e: VastError)
    ensures
        e.error_type == VastErrorType::CameraError,
{
    VastError::new(VastErrorType::CameraError, owned(message))
}

/// Byte length of a `width x height` frame in a camera format.
pub open spec fn camera_frame_len(width: u32, height: u32, format: CameraFrameFormat) -> int {
    width as int * height as int * camera_format_bytes_per_pixel(format) as int
}

/// Byte length of a `width x height` frame in a camera format.
pub fn frame_bytes_len(width: u32, height: u32, format: CameraFrameFormat) -> (r: usize)
    requires
        camera_frame_len(width, height, format) <= usize::MAX,
    ensures
        r == camera_frame_len(width, height, format),
{
    let bytes_per_pixel: usize = match format {
        CameraFrameFormat::RAW8 => 1,
        CameraFrameFormat::RAW10 | CameraFrameFormat::RAW12 | CameraFrameFormat::RAW14
        | CameraFrameFormat::RAW16 => 2,
        CameraFrameFormat::RGB24 => 3,
        CameraFrameFormat::RGB32 => 4,
    };
    assert(width as int * height as int <= width as int * height as int * bytes_per_pixel as int) by (nonlinear_arith)
        requires
            bytes_per_pixel >= 1,
    ;
    width as usize * height as usize * bytes_per_pixel
}

/// Sensor presets.
#[derive(Clone, Copy, Debug, PartialEq, Eq, Structural)]
pub enum FakeCameraSensorPreset {
    Asi294Mc,
}

impl FakeCameraSensorPreset {
    /// Sensor resolution in pixels.
    pub fn resolution(self) -> (r: (u32, u32))
        ensures
            r == (4144u32, 2822u32),
    {
        match self {
            FakeCameraSensorPreset::Asi294Mc => (4144, 2822),
        }
    }

    /// Display label.
    pub fn label(self) -> (r: &'static str)
        ensures
            r@ == "ASI294MC 4144x2822 4.63um"@,
    {
        match self {
            FakeCameraSensorPreset::Asi294Mc => "ASI294MC 4144x2822 4.63um",
        }
    }
}

/// Focal length presets.
#[derive(Clone, Copy, Debug, PartialEq, Eq, Structural)]
pub enum FakeCameraFocalPreset {
    Mm135,
    Mm250,
    Mm400,
    Mm600,
    Mm800,
    Mm1000,
}

/// Sensor defect profiles.
#[derive(Clone, Copy, Debug, PartialEq, Eq, Structural)]
pub enum FakeCameraDefectProfile {
    Clean,
    Light,
    Moderate,
    Heavy,
}

/// Display label of a defect profile.
pub open spec fn defect_label(p: FakeCameraDefectProfile) -> Seq<char> {
    match p {
        FakeCameraDefectProfile::Clean => "Clean sensor"@,
        FakeCameraDefectProfile::Light => "Light hot/cold pixels"@,
        FakeCameraDefectProfile::Moderate => "Moderate hot/cold pixels"@,
        FakeCameraDefectProfile::Heavy => "Heavy hot/cold pixels"@,
    }
}

impl FakeCameraDefectProfile {
    /// Display label.
    pub fn label(self) -> (r: &'static str)
        ensures
            r@ == defect_label(self),
    {
        match self {
            FakeCameraDefectProfile::Clean => "Clean sensor",
            FakeCameraDefectProfile::Light => "Light hot/cold pixels",
            FakeCameraDefectProfile::Moderate => "Moderate hot/cold pixels",
            FakeCameraDefectProfile::Heavy => "Heavy hot/cold pixels",
        }
    }
}

/// Sky field presets.
#[derive(Clone, Copy, Debug, PartialEq, Eq, Structural)]
pub enum FakeCameraSkyFieldPreset {
    M42Orion,
    M31Andromeda,
    M45Pleiades,
    VegaLyra,
    Polaris,
    SadrCygnus,
    NoStars,
    FlatField,
}

impl FakeCameraSkyFieldPreset {
    /// The field renders a dark frame.
    pub fn is_dark_mode(self) -> (r: bool)
        ensures
            r == (self == FakeCameraSkyFieldPreset::NoStars),
    {
        match self {
            FakeCameraSkyFieldPreset::NoStars => true,
            _ => false,
        }
    }

    /// The field renders a flat frame.
    pub fn is_flat_mode(self) -> (r: bool)
        ensures
            r == (self == FakeCameraSkyFieldPreset::FlatField),
    {
        match self {
            FakeCameraSkyFieldPreset::FlatField => true,
            _ => false,
        }
    }
}

/// The integer limits the simulated camera checks settings against.
#[derive(Clone)]
pub struct FakeCameraLimits {
    pub exposure: VastCameraCapExposure,
    pub gain: VastCameraCapGain,
    pub offset: VastCameraCapOffset,
    pub binning_modes: Vec<u32>,
    pub sensor_width: u32,
    pub sensor_height: u32,
}

/// The limits of a simulated sensor of `width x height` pixels.
pub fn fake_camera_limits(width: u32, height: u32) -> (r: FakeCameraLimits)
    ensures
        r.exposure.min_microseconds == 1_000,
        r.exposure.max_microseconds == 60_000_000,
        r.gain.min == 0 && r.gain.max == 500,
        r.offset.min == 0 && r.offset.max == 65535,
        r.binning_modes@ == seq![1u32, 2, 4],
        r.sensor_width == width,
        r.sensor_height == height,
{
    FakeCameraLimits {
        exposure: VastCameraCapExposure { min_microseconds: 1_000, max_microseconds: 60_000_000, step: 1 },
        gain: VastCameraCapGain { min: 0, max: 500, step: 1 },
        offset: VastCameraCapOffset { min: 0, max: 65535, step: 1 },
        binning_modes: vec![1, 2, 4],
        sensor_width: width,
        sensor_height: height,
    }
}

/// `a + b` saturated at `u32::MAX`.
pub open spec fn sat_add(a: u32, b: u32) -> int {
    if a + b > u32::MAX {
        u32::MAX as int
    } else {
        a + b
    }
}

/// Whether an ROI lies inside a `width x height` sensor.
pub open spec fn roi_inside(roi: (u32, u32, u32, u32), width: u32, height: u32) -> bool {
    sat_add(roi.0, roi.2) <= width && sat_add(roi.1, roi.3) <= height
}

/// Whether an ROI lies inside a `width x height` sensor.
pub fn roi_fits(roi: (u32, u32, u32, u32), width: u32, height: u32) -> (r: bool)
    ensures
        r == roi_inside(roi, width, height),
{
    let (x, y, w, h) = roi;
    x.saturating_add(w) <= width && y.saturating_add(h) <= height
}

/// The settings after applying `s` field by field: exposure, gain, offset,
/// binning, ROI, each checked against `lim`. The first invalid field stops
/// the update (`false`), keeping the fields applied before it.
pub open spec fn settings_update(cur: VastCameraSettings, lim: FakeCameraLimits, s: VastCameraSettings) -> (
    VastCameraSettings,
    bool,
) {
    let e_ok = match s.exposure_microseconds {
        Some(e) => lim.exposure.min_microseconds <= e <= lim.exposure.max_microseconds,
        None => true,
    };
    let c1 = match s.exposure_microseconds {
        Some(e) => VastCameraSettings { exposure_microseconds: Some(e), ..cur },
        None => cur,
    };
    let g_ok = match s.gain {
        Some(g) => lim.gain.min <= g <= lim.gain.max,
        None => true,
    };
    let c2 = match s.gain {
        Some(g) => VastCameraSettings { gain: Some(g), ..c1 },
        None => c1,
    };
    let o_ok = match s.offset {
        Some(o) => lim.offset.min <= o <= lim.offset.max,
        None => true,
    };
    let c3 = match s.offset {
        Some(o) => VastCameraSettings { offset: Some(o), ..c2 },
        None => c2,
    };
    let b_ok = match s.binning {
        Some((h, v)) => h != 0 && h == v && lim.binning_modes@.contains(h),
        None => true,
    };
    let c4 = match s.binning {
        Some(b) => VastCameraSettings { binning: Some(b), ..c3 },
        None => c3,
    };
    let r_ok = match s.roi {
        Some(roi) => roi.2 != 0 && roi.3 != 0 && roi_inside(roi, lim.sensor_width, lim.sensor_height),
        None => true,
    };
    let c5 = match s.roi {
        Some(roi) => VastCameraSettings { roi: Some(roi), ..c4 },
        None => c4,
    };
    if !e_ok {
        (cur, false)
    } else if !g_ok {
        (c1, false)
    } else if !o_ok {
        (c2, false)
    } else if !b_ok {
        (c3, false)
    } else if !r_ok {
        (c4, false)
    } else {
        (c5, true)
    }
}

fn contains_mode(modes: &Vec<u32>, m: u32) -> (r: bool)
    ensures
        r == modes@.contains(m),
{
    let mut i: usize = 0;
    while i < modes.len()
        invariant
            i <= modes.len(),
            forall|j: int| 0 <= j < i ==> modes@[j] != m,
        decreases modes.len() - i,
    {
        if modes[i] == m {
            assert(modes@[i as int] == m);
            return true;
        }
        i = i + 1;
    }
    false
}

/// Applies requested settings to the current ones as the simulated camera
/// does; the error names the first invalid field.
pub fn apply_camera_settings(current: &mut VastCameraSettings, lim: &FakeCameraLimits, settings: VastCameraSettings) -> (r: VastResult<()>)
    ensures
        *final(current) == settings_update(*old(current), *lim, settings).0,
        r is Ok <==> settings_update(*old(current), *lim, settings).1,
        r matches Err(e) ==> e.error_type == VastErrorType::InvalidInput,
{
    if let Some(e) = settings.exposure_microseconds {
        if e < lim.exposure.min_microseconds || e > lim.exposure.max_microseconds {
            return Err(invalid_input("fake camera exposure is outside its range"));
        }
        current.exposure_microseconds = Some(e);
    }
    if let Some(g) = settings.gain {
        if g < lim.gain.min || g > lim.gain.max {
            return Err(invalid_input("fake camera gain is outside its range"));
        }
        current.gain = Some(g);
    }
    if let Some(o) = settings.offset {
        if o < lim.offset.min || o > lim.offset.max {
            return Err(invalid_input("fake camera offset is outside its range"));
        }
        current.offset = Some(o);
    }
    if let Some((h, v)) = settings.binning {
        if h == 0 || h != v {
            return Err(invalid_input("fake camera only supports square binning greater than zero"));
        }
        if !contains_mode(&lim.binning_modes, h) {
            return Err(invalid_input("fake camera binning mode is not supported"));
        }
        current.binning = Some((h, v));
    }
    if let Some(roi) = settings.roi {
        if roi.2 == 0 || roi.3 == 0 {
            return Err(invalid_input("fake camera ROI dimensions must be non-zero"));
        }
        if !roi_fits(roi, lim.sensor_width, lim.sensor_height) {
            return Err(invalid_input("fake camera ROI exceeds sensor dimensions"));
        }
        current.roi = Some(roi);
    }
    Ok(())
}

/// Frame `(width, height, bin)`: the ROI when one is set, else the sensor
/// divided by the horizontal binning (at least 1).
pub open spec fn effective_dims(s: VastCameraSettings, sensor_width: u32, sensor_height: u32) -> (u32, u32, u32) {
    let bin: u32 = match s.binning {
        Some((h, _)) => if h >= 1 {
            h
        } else {
            1
        },
        None => 1,
    };
    match s.roi {
        Some((_, _, w, h)) => (w, h, bin),
        None => ((sensor_width / bin) as u32, (sensor_height / bin) as u32, bin),
    }
}

/// Frame `(width, height, bin)` for the current settings.
pub fn effective_dimensions(s: &VastCameraSettings, sensor_width: u32, sensor_height: u32) -> (r: (u32, u32, u32))
    ensures
        r == effective_dims(*s, sensor_width, sensor_height),
{
    let bin: u32 = match s.binning {
        Some((h, _)) => if h >= 1 {
            h
        } else {
            1
        },
        None => 1,
    };
    match s.roi {
        Some((_, _, w, h)) => (w, h, bin),
        None => (sensor_width / bin, sensor_height / bin, bin),
    }
}

/// Settings of a new simulated camera: default exposure and offset, the
/// rest unset.
pub fn initial_fake_settings() -> (r: VastCameraSettings)
    ensures
        r == (VastCameraSettings {
            exposure_microseconds: Some(DEFAULT_EXPOSURE_US),
            offset: Some(DEFAULT_SENSOR_OFFSET),
            ..VastCameraSettings::empty()
        }),
{
    VastCameraSettings {
        exposure_microseconds: Some(DEFAULT_EXPOSURE_US),
        offset: Some(DEFAULT_SENSOR_OFFSET),
        ..VastCameraSettings::default()
    }
}

/// Whether `id` names the simulated camera: its string identifier or the
/// integer `0`.
pub open spec fn is_fake_camera_id(id: VastCameraID) -> bool {
    match id {
        VastCameraID::StrID(s) => s@ == DEFAULT_CAMERA_ID@,
        VastCameraID::IntID(i) => i == 0,
    }
}

/// Checks a camera identifier on connect.
pub fn check_fake_camera_id(id: &VastCameraID) -> (r: VastResult<()>)
    ensures
        r is Ok <==> is_fake_camera_id(*id),
        r matches Err(e) ==> e.error_type == VastErrorType::CameraError,
{
    match id {
        VastCameraID::StrID(s) => {
            let c = str_chars(s.as_str());
            if chars_eq_str(c.as_slice(), DEFAULT_CAMERA_ID) {
                Ok(())
            } else {
                Err(camera_error("Unknown fake camera id"))
            }
        },
        VastCameraID::IntID(i) => {
            if *i == 0 {
                Ok(())
            } else {
                Err(camera_error("Unknown fake camera id"))
            }
        },
    }
}

/// Driver of the simulated camera.
pub struct FakeCameraDriver;

impl VastCameraDriver for FakeCameraDriver {
    fn new() -> Self {
        FakeCameraDriver
    }

    /// Lists the one simulated camera.
    fn init(&mut self) -> (r: Result<Vec<VastCameraInfo>, VastError>)
        ensures
            r matches Ok(v) && v@.len() == 1 && (v@[0].id matches VastCameraID::StrID(s) && s@
                == DEFAULT_CAMERA_ID@) && v@[0].name@ == DEFAULT_CAMERA_NAME@ && v@[0].serial_number@
                == "FAKE0001"@ && v@[0].raw_extra_info@ == "real-field preset synthetic camera"@,
    {
        Ok(vec![VastCameraInfo {
            id: VastCameraID::StrID(owned(DEFAULT_CAMERA_ID)),
            name: owned(DEFAULT_CAMERA_NAME),
            serial_number: owned("FAKE0001"),
            raw_extra_info: owned("real-field preset synthetic camera"),
        }])
    }

    fn id(&self) -> (r: &str)
        ensures
            r@ == "FAKE_NATIVE_CAMERA_DRIVER"@,
    {
        "FAKE_NATIVE_CAMERA_DRIVER"
    }

    fn get_manufacturer(&self) -> (r: &str)
        ensures
            r@ == "OpenCode"@,
    {
        "OpenCode"
    }

    fn get_version(&self) -> (r: &str)
        ensures
            r@ == "0.2"@,
    {
        "0.2"
    }
}

/// The frame geometry of the settings: the bin factor is the horizontal
/// binning when at least 1, else 1; with an ROI the frame is the ROI's size;
/// without one, each side is the sensor side divided by the bin factor, so
/// that `bin` binned pixels fit in the sensor side and `bin` more do not.
pub proof fn lemma_effective_dims(s: VastCameraSettings, sensor_width: u32, sensor_height: u32)
    ensures
        ({
            let (w, h, bin) = effective_dims(s, sensor_width, sensor_height);
            &&& bin >= 1
            &&& match s.binning {
                Some(b) => if b.0 >= 1 {
                    bin == b.0
                } else {
                    bin == 1
                },
                None => bin == 1,
            }
            &&& match s.roi {
                Some(r) => w == r.2 && h == r.3,
                None => w * bin <= sensor_width < (w + 1) * bin && h * bin <= sensor_height < (h + 1) * bin,
            }
        }),
{
    let (w, h, bin) = effective_dims(s, sensor_width, sensor_height);
    if s.roi is None {
        assert(w == sensor_width / bin && h == sensor_height / bin);
        assert(w * bin <= sensor_width < (w + 1) * bin) by (nonlinear_arith)
            requires
                w == sensor_width / bin,
                bin >= 1,
        ;
        assert(h * bin <= sensor_height < (h + 1) * bin) by (nonlinear_arith)
            requires
                h == sensor_height / bin,
                bin >= 1,
        ;
    }
}

} // verus!
