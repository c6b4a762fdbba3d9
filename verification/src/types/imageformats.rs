//! Image frames and their pixel formats, and their camera counterparts.
use vstd::prelude::*;

use crate::types::camera::{CameraFrameFormat, VastCameraFrame};

verus! {

/// A pixel layout of an image frame.
pub trait ImageFrameFormat: Copy + Clone + core::fmt::Debug + PartialEq + Eq {
    /// Short format name, such as `RAW16`.
    fn name(&self) -> &'static str;

    /// Bytes used to store one pixel.
    fn bytes_per_pixel(&self) -> usize;
}

/// Pixel formats understood by the image codecs.
///
/// Samples of the 10/12/14/16-bit raw formats are stored as 16-bit
/// little-endian words.
#[derive(Debug, Clone, Copy, Hash, PartialEq, Eq, Structural)]
pub enum StandardImageFrameFormat {
    RAW8,
    RAW16,
    RAW14,
    RAW12,
    RAW10,
    RGB24,
    RGB32,
}

/// Bytes per pixel of a format.
pub open spec fn spec_bytes_per_pixel(format: StandardImageFrameFormat) -> nat {
    match format {
        StandardImageFrameFormat::RAW8 => 1,
        StandardImageFrameFormat::RAW16
        | StandardImageFrameFormat::RAW14
        | StandardImageFrameFormat::RAW12
        | StandardImageFrameFormat::RAW10 => 2,
        StandardImageFrameFormat::RGB24 => 3,
        StandardImageFrameFormat::RGB32 => 4,
    }
}

/// Name of a format.
pub open spec fn spec_format_name(format: StandardImageFrameFormat) -> Seq<char> {
    match format {
        StandardImageFrameFormat::RAW8 => "RAW8"@,
        StandardImageFrameFormat::RAW16 => "RAW16"@,
        StandardImageFrameFormat::RAW14 => "RAW14"@,
        StandardImageFrameFormat::RAW12 => "RAW12"@,
        StandardImageFrameFormat::RAW10 => "RAW10"@,
        StandardImageFrameFormat::RGB24 => "RGB24"@,
        StandardImageFrameFormat::RGB32 => "RGB32"@,
    }
}

/// The format stores one 16-bit word per pixel.
pub open spec fn is_wide_raw(format: StandardImageFrameFormat) -> bool {
    format is RAW16 || format is RAW14 || format is RAW12 || format is RAW10
}

impl ImageFrameFormat for StandardImageFrameFormat {
    fn name(&self) -> (r: &'static str)
        ensures
            r@ == spec_format_name(*self),
    {
        match self {
            StandardImageFrameFormat::RAW8 => "RAW8",
            StandardImageFrameFormat::RAW16 => "RAW16",
            StandardImageFrameFormat::RAW14 => "RAW14",
            StandardImageFrameFormat::RAW12 => "RAW12",
            StandardImageFrameFormat::RAW10 => "RAW10",
            StandardImageFrameFormat::RGB24 => "RGB24",
            StandardImageFrameFormat::RGB32 => "RGB32",
        }
    }

    fn bytes_per_pixel(&self) -> (r: usize)
        ensures
            r == spec_bytes_per_pixel(*self),
    {
        match self {
            StandardImageFrameFormat::RAW8 => 1,
            StandardImageFrameFormat::RAW16
            | StandardImageFrameFormat::RAW14
            | StandardImageFrameFormat::RAW12
            | StandardImageFrameFormat::RAW10 => 2,
            StandardImageFrameFormat::RGB24 => 3,
            StandardImageFrameFormat::RGB32 => 4,
        }
    }
}

impl StandardImageFrameFormat {
    /// The format's name as an owned string (what `Display` prints).
    pub fn to_string(&self) -> (r: String)
        ensures
            r@ == spec_format_name(*self),
    {
        crate::text::owned(self.name())
    }
}

/// A decoded image: dimensions, pixel format and raw pixel bytes.
#[derive(Clone, Debug, PartialEq, Eq)]
pub struct ImageFrame {
    pub width: u32,
    pub height: u32,
    pub format: StandardImageFrameFormat,
    pub data: Vec<u8>,
}

/// Camera frame format corresponding to an image frame format.
pub open spec fn image_to_camera_format(value: StandardImageFrameFormat) -> CameraFrameFormat {
    match value {
        StandardImageFrameFormat::RAW8 => CameraFrameFormat::RAW8,
        StandardImageFrameFormat::RAW16 => CameraFrameFormat::RAW16,
        StandardImageFrameFormat::RAW14 => CameraFrameFormat::RAW14,
        StandardImageFrameFormat::RAW12 => CameraFrameFormat::RAW12,
        StandardImageFrameFormat::RAW10 => CameraFrameFormat::RAW10,
        StandardImageFrameFormat::RGB24 => CameraFrameFormat::RGB24,
        StandardImageFrameFormat::RGB32 => CameraFrameFormat::RGB32,
    }
}

/// Image frame format corresponding to a camera frame format.
pub open spec fn camera_to_image_format(value: CameraFrameFormat) -> StandardImageFrameFormat {
    match value {
        CameraFrameFormat::RAW8 => StandardImageFrameFormat::RAW8,
        CameraFrameFormat::RAW16 => StandardImageFrameFormat::RAW16,
        CameraFrameFormat::RAW14 => StandardImageFrameFormat::RAW14,
        CameraFrameFormat::RAW12 => StandardImageFrameFormat::RAW12,
        CameraFrameFormat::RAW10 => StandardImageFrameFormat::RAW10,
        CameraFrameFormat::RGB24 => StandardImageFrameFormat::RGB24,
        CameraFrameFormat::RGB32 => StandardImageFrameFormat::RGB32,
    }
}

impl From<CameraFrameFormat> for StandardImageFrameFormat {
    fn from(value: CameraFrameFormat) -> (r: Self) {
        match value {
            CameraFrameFormat::RAW8 => Self::RAW8,
            CameraFrameFormat::RAW16 => Self::RAW16,
            CameraFrameFormat::RAW14 => Self::RAW14,
            CameraFrameFormat::RAW12 => Self::RAW12,
            CameraFrameFormat::RAW10 => Self::RAW10,
            CameraFrameFormat::RGB24 => Self::RGB24,
            CameraFrameFormat::RGB32 => Self::RGB32,
        }
    }
}

impl vstd::std_specs::convert::FromSpecImpl<CameraFrameFormat> for StandardImageFrameFormat {
    open spec fn obeys_from_spec() -> bool {
        true
    }

    open spec fn from_spec(v: CameraFrameFormat) -> Self {
        camera_to_image_format(v)
    }
}

impl From<StandardImageFrameFormat> for CameraFrameFormat {
    fn from(value: StandardImageFrameFormat) -> (r: Self) {
        match value {
            StandardImageFrameFormat::RAW8 => Self::RAW8,
            StandardImageFrameFormat::RAW16 => Self::RAW16,
            StandardImageFrameFormat::RAW14 => Self::RAW14,
            StandardImageFrameFormat::RAW12 => Self::RAW12,
            StandardImageFrameFormat::RAW10 => Self::RAW10,
            StandardImageFrameFormat::RGB24 => Self::RGB24,
            StandardImageFrameFormat::RGB32 => Self::RGB32,
        }
    }
}

impl vstd::std_specs::convert::FromSpecImpl<StandardImageFrameFormat> for CameraFrameFormat {
    open spec fn obeys_from_spec() -> bool {
        true
    }

    open spec fn from_spec(v: StandardImageFrameFormat) -> Self {
        image_to_camera_format(v)
    }
}

/// Image frame holding the same pixels as a camera frame.
pub open spec fn camera_to_image_frame(value: VastCameraFrame) -> ImageFrame {
    ImageFrame {
        width: value.width,
        height: value.height,
        format: camera_to_image_format(value.format),
        data: value.data,
    }
}

/// Camera frame holding the same pixels as an image frame.
pub open spec fn image_to_camera_frame(value: ImageFrame) -> VastCameraFrame {
    VastCameraFrame {
        width: value.width,
        height: value.height,
        format: image_to_camera_format(value.format),
        data: value.data,
    }
}

impl From<VastCameraFrame> for ImageFrame {
    fn from(value: VastCameraFrame) -> (r: Self) {
        ImageFrame {
            width: value.width,
            height: value.height,
            format: StandardImageFrameFormat::from(value.format),
            data: value.data,
        }
    }
}

impl vstd::std_specs::convert::FromSpecImpl<VastCameraFrame> for ImageFrame {
    open spec fn obeys_from_spec() -> bool {
        true
    }

    open spec fn from_spec(v: VastCameraFrame) -> Self {
        camera_to_image_frame(v)
    }
}

impl From<ImageFrame> for VastCameraFrame {
    fn from(value: ImageFrame) -> (r: Self) {
        VastCameraFrame {
            width: value.width,
            height: value.height,
            format: CameraFrameFormat::from(value.format),
            data: value.data,
        }
    }
}

impl vstd::std_specs::convert::FromSpecImpl<ImageFrame> for VastCameraFrame {
    open spec fn obeys_from_spec() -> bool {
        true
    }

    open spec fn from_spec(v: ImageFrame) -> Self {
        image_to_camera_frame(v)
    }
}

/// Converting a camera format to an image format and back gives the same
/// camera format, and the other way round.
pub proof fn lemma_format_round_trip(c: CameraFrameFormat, i: StandardImageFrameFormat)
    ensures
        image_to_camera_format(camera_to_image_format(c)) == c,
        camera_to_image_format(image_to_camera_format(i)) == i,
{
}

/// Converting a pixel format between its camera and image forms keeps its
/// name and its bytes per pixel.
pub proof fn lemma_conversion_keeps_format(c: CameraFrameFormat, i: StandardImageFrameFormat)
    ensures
        spec_format_name(camera_to_image_format(c)) == crate::types::camera::camera_format_name(c),
        spec_bytes_per_pixel(camera_to_image_format(c)) == crate::types::camera::camera_format_bytes_per_pixel(c),
        crate::types::camera::camera_format_name(image_to_camera_format(i)) == spec_format_name(i),
        crate::types::camera::camera_format_bytes_per_pixel(image_to_camera_format(i)) == spec_bytes_per_pixel(i),
{
}

/// Converting a camera frame to an image frame and back gives the same camera
/// frame (dimensions, format and bytes), and the other way round.
pub proof fn lemma_frame_round_trip(c: VastCameraFrame, i: ImageFrame)
    ensures
        image_to_camera_frame(camera_to_image_frame(c)) == c,
        camera_to_image_frame(image_to_camera_frame(i)) == i,
{
}

/// Reads an image file's bytes into a frame.
pub trait ImageReader {
    /// Formats this reader can produce.
    spec fn reader_formats(&self) -> Seq<StandardImageFrameFormat>;

    /// Formats this reader can produce.
    fn supported_formats(&self) -> (r: &'static [StandardImageFrameFormat])
        ensures
            r@ == self.reader_formats(),
    ;

    /// Decodes the bytes of an image file.
    fn decode(&self, bytes: &[u8]) -> Result<ImageFrame, crate::base::errors::VastError>;
}

} // verus!
