//! Camera identifiers, frame formats, capabilities, settings and driver interfaces.
use vstd::prelude::*;

use crate::base::errors::VastError;
use crate::text::{decimal, push_decimal, push_str, push_char, signed_decimal, push_signed_decimal};

verus! {

/// Broad class of camera device.
pub enum CameraType {
    /// DSLR or mirrorless reflex-style camera.
    Reflex,
    /// Dedicated astronomy camera with color sensor.
    DedicatedRGB,
    /// Dedicated astronomy camera with mono sensor.
    DedicatedMono,
}

/// Sensor Bayer color filter arrangement.
#[derive(Clone, Copy, Debug, PartialEq, Eq, Structural)]
pub enum CameraBayerPattern {
    /// Red/green row followed by green/blue row.
    RGGB,
    /// Blue/green row followed by green/red row.
    BGGR,
    /// Green/red row followed by blue/green row.
    GRBG,
    /// Green/blue row followed by red/green row.
    GBRG,
}

/// Name of a Bayer pattern, as displayed.
pub open spec fn bayer_pattern_name(p: CameraBayerPattern) -> Seq<char> {
    match p {
        CameraBayerPattern::RGGB => "RGGB"@,
        CameraBayerPattern::BGGR => "BGGR"@,
        CameraBayerPattern::GRBG => "GRBG"@,
        CameraBayerPattern::GBRG => "GBRG"@,
    }
}

impl CameraBayerPattern {
    /// The pattern's display text.
    pub fn to_string(&self) -> (r: String)
        ensures
            r@ == bayer_pattern_name(*self),
    {
        let s = match self {
            CameraBayerPattern::RGGB => "RGGB",
            CameraBayerPattern::BGGR => "BGGR",
            CameraBayerPattern::GRBG => "GRBG",
            CameraBayerPattern::GBRG => "GBRG",
        };
        crate::text::owned(s)
    }
}

/// Pixel format returned by a camera frame.
#[derive(Debug, Clone, Copy, Hash, PartialEq, Eq, Structural)]
pub enum CameraFrameFormat {
    /// 8-bit raw mono or Bayer data.
    RAW8,
    /// 16-bit raw mono or Bayer data.
    RAW16,
    /// 14-bit raw data stored in 16-bit words.
    RAW14,
    /// 12-bit raw data stored in 16-bit words.
    RAW12,
    /// 10-bit raw data stored in 16-bit words.
    RAW10,
    /// 24-bit RGB/BGR data.
    RGB24,
    /// 32-bit RGB/BGR data with alpha or padding channel.
    RGB32,
}

/// Name of a camera frame format, as displayed.
pub open spec fn camera_format_name(f: CameraFrameFormat) -> Seq<char> {
    match f {
        CameraFrameFormat::RAW8 => "RAW8"@,
        CameraFrameFormat::RAW16 => "RAW16"@,
        CameraFrameFormat::RAW14 => "RAW14"@,
        CameraFrameFormat::RAW12 => "RAW12"@,
        CameraFrameFormat::RAW10 => "RAW10"@,
        CameraFrameFormat::RGB24 => "RGB24"@,
        CameraFrameFormat::RGB32 => "RGB32"@,
    }
}

/// Bytes used by one pixel of a camera frame format.
pub open spec fn camera_format_bytes_per_pixel(f: CameraFrameFormat) -> nat {
    match f {
        CameraFrameFormat::RAW8 => 1,
        CameraFrameFormat::RAW10
        | CameraFrameFormat::RAW12
        | CameraFrameFormat::RAW14
        | CameraFrameFormat::RAW16 => 2,
        CameraFrameFormat::RGB24 => 3,
        CameraFrameFormat::RGB32 => 4,
    }
}

impl CameraFrameFormat {
    /// The format's display text.
    pub fn to_string(&self) -> (r: String)
        ensures
            r@ == camera_format_name(*self),
    {
        let s = match self {
            CameraFrameFormat::RAW8 => "RAW8",
            CameraFrameFormat::RAW16 => "RAW16",
            CameraFrameFormat::RAW14 => "RAW14",
            CameraFrameFormat::RAW12 => "RAW12",
            CameraFrameFormat::RAW10 => "RAW10",
            CameraFrameFormat::RGB24 => "RGB24",
            CameraFrameFormat::RGB32 => "RGB32",
        };
        crate::text::owned(s)
    }
}

/// Camera identifier used by drivers.
#[derive(Debug, Clone, PartialEq, Eq)]
pub enum VastCameraID {
    /// String camera identifier.
    StrID(String),
    /// Integer camera identifier.
    IntID(i32),
}

/// Display text of a camera identifier.
pub open spec fn camera_id_text(id: VastCameraID) -> Seq<char> {
    match id {
        VastCameraID::StrID(s) => s@,
        VastCameraID::IntID(i) => signed_decimal(i as int),
    }
}

impl VastCameraID {
    /// The identifier's display text.
    pub fn to_string(&self) -> (r: String)
        ensures
            r@ == camera_id_text(*self),
    {
        match self {
            VastCameraID::StrID(s) => s.clone(),
            VastCameraID::IntID(i) => {
                let mut out = String::new();
                push_signed_decimal(&mut out, *i as i64);
                assert(out@ =~= signed_decimal(*i as int));
                out
            },
        }
    }
}

impl From<VastCameraID> for i32 {
    /// Integer identifiers map to themselves, string identifiers to `0`.
    fn from(value: VastCameraID) -> (r: i32) {
        match value {
            VastCameraID::StrID(_) => 0,
            VastCameraID::IntID(i) => i,
        }
    }
}

impl vstd::std_specs::convert::FromSpecImpl<VastCameraID> for i32 {
    open spec fn obeys_from_spec() -> bool {
        true
    }

    open spec fn from_spec(v: VastCameraID) -> i32 {
        match v {
            VastCameraID::StrID(_) => 0,
            VastCameraID::IntID(i) => i,
        }
    }
}

/// Camera information available before opening a connection.
pub struct VastCameraInfo {
    /// Driver-specific camera identifier.
    pub id: VastCameraID,
    /// Human-readable camera name.
    pub name: String,
    /// Camera serial number when available.
    pub serial_number: String,
    /// Driver-specific extra information for diagnostics.
    pub raw_extra_info: String,
}

/// One image frame acquired from a camera.
#[derive(Clone, Debug, PartialEq, Eq)]
pub struct VastCameraFrame {
    /// Frame width in pixels.
    pub width: u32,
    /// Frame height in pixels.
    pub height: u32,
    /// Pixel format of `data`.
    pub format: CameraFrameFormat,
    /// Raw pixel bytes in camera output order.
    pub data: Vec<u8>,
}

/// ST4 guide direction.
#[derive(Clone, Copy, Debug, PartialEq, Eq, Structural)]
pub enum VastCameraGuideDirection {
    /// North guide pulse.
    North,
    /// South guide pulse.
    South,
    /// East guide pulse.
    East,
    /// West guide pulse.
    West,
}

/// Gain capability range.
#[derive(Clone, Copy)]
pub struct VastCameraCapGain {
    /// Minimum gain value.
    pub min: u32,
    /// Maximum gain value.
    pub max: u32,
    /// Suggested gain step.
    pub step: u32,
}

/// ISO capability range for camera classes that expose ISO.
#[derive(Clone, Copy)]
pub struct VastCameraCapISO {
    /// Minimum ISO value.
    pub min: u32,
    /// Maximum ISO value.
    pub max: u32,
    /// ISO multiplier between adjacent values.
    pub multiplier: u32,
}

/// Offset or black-level capability range.
#[derive(Clone, Copy)]
pub struct VastCameraCapOffset {
    /// Minimum offset value.
    pub min: u32,
    /// Maximum offset value.
    pub max: u32,
    /// Suggested offset step.
    pub step: u32,
}

/// Generic integer capability range.
#[derive(Clone, Copy)]
pub struct VastCameraCapRange {
    /// Minimum value.
    pub min: u32,
    /// Maximum value.
    pub max: u32,
    /// Suggested step.
    pub step: u32,
}

/// White balance capability ranges for red, green, and blue channels.
#[derive(Clone, Copy)]
pub struct VastCameraCapWhiteBalance {
    /// Red-channel range.
    pub red: VastCameraCapRange,
    /// Green-channel range.
    pub green: VastCameraCapRange,
    /// Blue-channel range.
    pub blue: VastCameraCapRange,
}

/// Exposure capability range.
#[derive(Clone, Copy)]
pub struct VastCameraCapExposure {
    /// Minimum exposure time in microseconds.
    pub min_microseconds: u64,
    /// Maximum exposure time in microseconds.
    pub max_microseconds: u64,
    /// Suggested exposure step.
    pub step: u8,
}

impl VastCameraCapExposure {
    /// Minimum exposure time in milliseconds.
    pub fn min_milliseconds(&self) -> (r: u64)
        ensures
            r == self.min_microseconds / 1000,
    {
        self.min_microseconds / 1_000
    }

    /// Maximum exposure time in milliseconds.
    pub fn max_milliseconds(&self) -> (r: u64)
        ensures
            r == self.max_microseconds / 1000,
    {
        self.max_microseconds / 1_000
    }
}

/// One supported ROI geometry for a specific binning mode.
#[derive(Clone, Copy)]
pub struct VastCameraCapRoiCombination {
    /// Binning factor for this ROI combination.
    pub bin: u32,
    /// Maximum ROI width after binning.
    pub max_width: u32,
    /// Maximum ROI height after binning.
    pub max_height: u32,
    /// Required width alignment step.
    pub width_step: u32,
    /// Required height alignment step.
    pub height_step: u32,
}

/// Region-of-interest capability.
#[derive(Clone)]
pub struct VastCameraCapRoi {
    /// Supported ROI combinations by binning mode.
    pub combinations: Vec<VastCameraCapRoiCombination>,
}

/// Supported square binning modes.
#[derive(Clone)]
pub struct VastCameraCapBinning {
    /// Binning factors, for example `1`, `2`, or `4`.
    pub modes: Vec<u32>,
}

/// Guide-port capability.
#[derive(Clone, Copy)]
pub struct VastCameraCapGuiding {
    /// Whether pulse guiding is supported.
    pub pulse_guide: bool,
}

/// Desired or current camera settings.
#[derive(Clone, Copy, Debug, PartialEq, Eq)]
pub struct VastCameraSettings {
    /// Exposure time in microseconds.
    pub exposure_microseconds: Option<u64>,
    /// Camera gain.
    pub gain: Option<u32>,
    /// Camera ISO.
    pub iso: Option<u32>,
    /// Camera offset or black level.
    pub offset: Option<u32>,
    /// Cooler state and target temperature in Celsius.
    pub cooler: Option<(bool, u32)>,
    /// White balance values for red, green, and blue channels.
    pub white_balance: Option<(u32, u32, u32)>,
    /// Contrast setting.
    pub contrast: Option<u32>,
    /// Sharpness setting.
    pub sharpness: Option<u32>,
    /// Saturation setting.
    pub saturation: Option<u32>,
    /// USB speed setting.
    pub usb_speed: Option<u32>,
    /// Region of interest as `(x, y, width, height)`.
    pub roi: Option<(u32, u32, u32, u32)>,
    /// Binning as `(horizontal, vertical)`.
    pub binning: Option<(u32, u32)>,
}

impl Default for VastCameraSettings {
    /// Settings with every field unset.
    fn default() -> (r: Self)
        ensures
            r == VastCameraSettings::empty(),
    {
        VastCameraSettings {
            exposure_microseconds: None,
            gain: None,
            iso: None,
            offset: None,
            cooler: None,
            white_balance: None,
            contrast: None,
            sharpness: None,
            saturation: None,
            usb_speed: None,
            roi: None,
            binning: None,
        }
    }
}

/// `"\n- <label>: <n><suffix>"` when `v` is set, nothing otherwise.
pub open spec fn optional_line(label: Seq<char>, v: Option<u64>, suffix: Seq<char>) -> Seq<char> {
    match v {
        Some(n) => "\n- "@ + label + ": "@ + decimal(n as nat) + suffix,
        None => Seq::empty(),
    }
}

/// Widening of an optional `u32`.
pub open spec fn widen(v: Option<u32>) -> Option<u64> {
    match v {
        Some(n) => Some(n as u64),
        None => None,
    }
}

/// Cooler line of the settings summary.
pub open spec fn cooler_line(c: Option<(bool, u32)>) -> Seq<char> {
    match c {
        Some((enabled, t)) => "\n- Cooler: "@ + (if enabled {
            "on"@
        } else {
            "off"@
        }) + ", target "@ + decimal(t as nat) + " C"@,
        None => Seq::empty(),
    }
}

/// White-balance line of the settings summary.
pub open spec fn white_balance_line(w: Option<(u32, u32, u32)>) -> Seq<char> {
    match w {
        Some((r, g, b)) => "\n- White balance: R="@ + decimal(r as nat) + ", G="@ + decimal(
            g as nat,
        ) + ", B="@ + decimal(b as nat),
        None => Seq::empty(),
    }
}

/// ROI line of the settings summary.
pub open spec fn roi_line(roi: Option<(u32, u32, u32, u32)>) -> Seq<char> {
    match roi {
        Some((x, y, w, h)) => "\n- ROI: x="@ + decimal(x as nat) + ", y="@ + decimal(y as nat)
            + ", "@ + decimal(w as nat) + "x"@ + decimal(h as nat) + " px"@,
        None => Seq::empty(),
    }
}

/// Binning line of the settings summary.
pub open spec fn binning_line(b: Option<(u32, u32)>) -> Seq<char> {
    match b {
        Some((hb, vb)) => "\n- Binning: "@ + decimal(hb as nat) + "x"@ + decimal(vb as nat),
        None => Seq::empty(),
    }
}

/// The multi-line summary `fancy_info_str` returns.
pub open spec fn settings_summary(s: VastCameraSettings) -> Seq<char> {
    "Camera settings"@
        + optional_line("Exposure"@, s.exposure_microseconds, " us"@)
        + optional_line("Gain"@, widen(s.gain), ""@)
        + optional_line("ISO"@, widen(s.iso), ""@)
        + optional_line("Offset"@, widen(s.offset), ""@)
        + cooler_line(s.cooler)
        + white_balance_line(s.white_balance)
        + optional_line("Contrast"@, widen(s.contrast), ""@)
        + optional_line("Sharpness"@, widen(s.sharpness), ""@)
        + optional_line("Saturation"@, widen(s.saturation), ""@)
        + optional_line("USB speed"@, widen(s.usb_speed), ""@)
        + roi_line(s.roi)
        + binning_line(s.binning)
}

fn push_cooler_line(out: &mut String, c: Option<(bool, u32)>)
    ensures
        final(out)@ == old(out)@ + cooler_line(c),
{
    if let Some((enabled, temperature)) = c {
        push_str(out, "\n- Cooler: ");
        push_str(out, if enabled { "on" } else { "off" });
        push_str(out, ", target ");
        push_decimal(out, temperature as u64);
        push_str(out, " C");
    }
    assert(out@ =~= old(out)@ + cooler_line(c));
}

fn push_white_balance_line(out: &mut String, w: Option<(u32, u32, u32)>)
    ensures
        final(out)@ == old(out)@ + white_balance_line(w),
{
    if let Some((red, green, blue)) = w {
        push_str(out, "\n- White balance: R=");
        push_decimal(out, red as u64);
        push_str(out, ", G=");
        push_decimal(out, green as u64);
        push_str(out, ", B=");
        push_decimal(out, blue as u64);
    }
    assert(out@ =~= old(out)@ + white_balance_line(w));
}

fn push_roi_line(out: &mut String, roi: Option<(u32, u32, u32, u32)>)
    ensures
        final(out)@ == old(out)@ + roi_line(roi),
{
    if let Some((x, y, width, height)) = roi {
        push_str(out, "\n- ROI: x=");
        push_decimal(out, x as u64);
        push_str(out, ", y=");
        push_decimal(out, y as u64);
        push_str(out, ", ");
        push_decimal(out, width as u64);
        push_str(out, "x");
        push_decimal(out, height as u64);
        push_str(out, " px");
    }
    assert(out@ =~= old(out)@ + roi_line(roi));
}

fn push_binning_line(out: &mut String, b: Option<(u32, u32)>)
    ensures
        final(out)@ == old(out)@ + binning_line(b),
{
    if let Some((horizontal, vertical)) = b {
        push_str(out, "\n- Binning: ");
        push_decimal(out, horizontal as u64);
        push_str(out, "x");
        push_decimal(out, vertical as u64);
    }
    assert(out@ =~= old(out)@ + binning_line(b));
}

fn push_optional_line(out: &mut String, label: &str, v: Option<u64>, suffix: &str)
    ensures
        final(out)@ == old(out)@ + optional_line(label@, v, suffix@),
{
    if let Some(n) = v {
        push_str(out, "\n- ");
        push_str(out, label);
        push_str(out, ": ");
        push_decimal(out, n);
        push_str(out, suffix);
        assert(out@ =~= old(out)@ + optional_line(label@, v, suffix@));
    } else {
        assert(out@ =~= old(out)@ + optional_line(label@, v, suffix@));
    }
}

fn widen_exec(v: Option<u32>) -> (r: Option<u64>)
    ensures
        r == widen(v),
{
    match v {
        Some(n) => Some(n as u64),
        None => None,
    }
}

impl VastCameraSettings {
    /// Settings with every field unset.
    pub open spec fn empty() -> VastCameraSettings {
        VastCameraSettings {
            exposure_microseconds: None,
            gain: None,
            iso: None,
            offset: None,
            cooler: None,
            white_balance: None,
            contrast: None,
            sharpness: None,
            saturation: None,
            usb_speed: None,
            roi: None,
            binning: None,
        }
    }

    /// Formats settings as a multi-line human-readable summary.
    pub fn fancy_info_str(&self) -> (r: String)
        ensures
            r@ == settings_summary(*self),
    {
        let mut out = crate::text::owned("Camera settings");
        push_optional_line(&mut out, "Exposure", self.exposure_microseconds, " us");
        push_optional_line(&mut out, "Gain", widen_exec(self.gain), "");
        push_optional_line(&mut out, "ISO", widen_exec(self.iso), "");
        push_optional_line(&mut out, "Offset", widen_exec(self.offset), "");
        push_cooler_line(&mut out, self.cooler);
        push_white_balance_line(&mut out, self.white_balance);
        push_optional_line(&mut out, "Contrast", widen_exec(self.contrast), "");
        push_optional_line(&mut out, "Sharpness", widen_exec(self.sharpness), "");
        push_optional_line(&mut out, "Saturation", widen_exec(self.saturation), "");
        push_optional_line(&mut out, "USB speed", widen_exec(self.usb_speed), "");
        push_roi_line(&mut out, self.roi);
        push_binning_line(&mut out, self.binning);
        assert(out@ =~= settings_summary(*self));
        out
    }
}

/// Common interface for camera driver discovery and metadata.
pub trait VastCameraDriver: Send + Sync {
    /// Creates a new driver instance.
    fn new() -> Self where Self: Sized;
    /// Initializes the driver and lists connected cameras.
    fn init(&mut self) -> Result<Vec<VastCameraInfo>, VastError>;
    /// Stable driver identifier.
    fn id(&self) -> &str;
    /// Camera manufacturer name.
    fn get_manufacturer(&self) -> &str;
    /// Native SDK or driver version string.
    fn get_version(&self) -> &str;
}

/// Interface for still-image acquisition.
pub trait VastCameraAcquireImage: Send + Sync {
    /// Starts a still-image acquisition using current camera settings.
    fn start_image_acquisition(&mut self) -> Result<(), VastError>;
    /// Aborts an active still-image acquisition.
    fn abort_image_acquisition(&mut self) -> Result<(), VastError>;
    /// Waits for and returns the acquired image frame.
    fn get_acquired_image(&mut self, timeout_millis: u32) -> Result<VastCameraFrame, VastError>;
}

/// Interface for ST4 pulse guiding.
pub trait VastCameraGuide: Send + Sync {
    /// Sends a guide pulse in `direction` for `duration_millis`.
    fn pulse_guide(
        &mut self,
        direction: VastCameraGuideDirection,
        duration_millis: u32,
    ) -> Result<(), VastError>;
}

/// Interface for video or live-view streaming.
pub trait VastCameraStreamingPreview: Send + Sync {
    /// Starts streaming preview capture.
    fn start_streaming_preview(&mut self) -> Result<(), VastError>;
    /// Reads one streaming preview frame.
    fn get_streaming_preview_frame(&mut self, timeout_millis: u32) -> Result<VastCameraFrame, VastError>;
    /// Stops streaming preview capture.
    fn stop_streaming_preview(&mut self) -> Result<(), VastError>;
}

} // verus!
