//! JPEG reader and writer.
//!
//! JPEG is lossy: saved pixel values are not kept exactly. The reader gives
//! only gray and RGB frames; 16-bit raw frames are cut to their high byte on
//! save, and RGBA frames lose their alpha.
use vstd::prelude::*;

use crate::base::errors::{VastError, VastErrorType};
use crate::imageformats::raster::{
    decode_color, decoded_frame, decode_luma8, decode_rgb8, image_color, image_file_error,
    image_luma8, image_rgb8, jpeg_encode, jpeg_encoding, DecodedColor, PixelLayout,
};
use crate::imageformats::types::{
    all_formats, all_formats_exec, expected_data_len, file_error, frame_len, HeaderCard, ImageFrame, ImageReader,
    ImageSaver,
};
use crate::text::owned;
use crate::types::imageformats::{is_wide_raw, StandardImageFrameFormat};

verus! {

/// JPEG saver configured for one image geometry, frame format and quality.
#[derive(Debug, Clone, Copy, PartialEq, Eq, Structural)]
pub struct JpegImageSaver {
    pub width: u32,
    pub height: u32,
    pub format: StandardImageFrameFormat,
    pub quality: u8,
}

impl JpegImageSaver {
    /// Creates a JPEG saver of quality 90.
    pub fn new(width: u32, height: u32, format: StandardImageFrameFormat) -> (r: Self)
        ensures
            r.width == width,
            r.height == height,
            r.format == format,
            r.quality == 90,
    {
        JpegImageSaver { width, height, format, quality: 90 }
    }

    /// Sets the quality, clamped to `1..=100`.
    pub fn with_quality(self, quality: u8) -> (r: Self)
        ensures
            r.quality == (if quality < 1 {
                1
            } else if quality > 100 {
                100
            } else {
                quality
            }),
            r.width == self.width,
            r.height == self.height,
            r.format == self.format,
    {
        let q = if quality < 1 {
            1
        } else if quality > 100 {
            100
        } else {
            quality
        };
        JpegImageSaver { quality: q, ..self }
    }
}

/// RGBA samples without their alpha bytes.
pub open spec fn strip_alpha(data: Seq<u8>) -> Seq<u8> {
    Seq::new(((data.len() / 4) * 3) as nat, |i: int| data[(i / 3) * 4 + i % 3])
}

/// The high byte of each little-endian 16-bit sample.
pub open spec fn high_bytes(data: Seq<u8>) -> Seq<u8> {
    Seq::new((data.len() / 2) as nat, |i: int| data[2 * i + 1])
}

/// The pixel bytes and layout handed to the JPEG encoder.
pub open spec fn jpeg_pixels(data: Seq<u8>, f: StandardImageFrameFormat) -> (Seq<u8>, PixelLayout) {
    match f {
        StandardImageFrameFormat::RAW8 => (data, PixelLayout::L8),
        StandardImageFrameFormat::RGB24 => (data, PixelLayout::Rgb8),
        StandardImageFrameFormat::RGB32 => (strip_alpha(data), PixelLayout::Rgb8),
        _ => (high_bytes(data), PixelLayout::L8),
    }
}

/// The JPEG file for a frame, or `None` where the saver reports an error.
pub open spec fn jpeg_file(w: u32, h: u32, f: StandardImageFrameFormat, q: u8, data: Seq<u8>) -> Option<Seq<u8>> {
    if data.len() != frame_len(w, h, f) {
        None
    } else {
        jpeg_encoding(jpeg_pixels(data, f).0, w, h, jpeg_pixels(data, f).1, q)
    }
}

/// The frame read from JPEG bytes: gray stays gray, anything else becomes
/// RGB.
pub open spec fn jpeg_frame(bytes: Seq<u8>) -> Option<(u32, u32, StandardImageFrameFormat, Seq<u8>)> {
    match image_color(bytes) {
        None => None,
        Some(DecodedColor::L8) => match image_luma8(bytes) {
            Some((w, h, d)) => Some((w, h, StandardImageFrameFormat::RAW8, d)),
            None => None,
        },
        Some(_) => match image_rgb8(bytes) {
            Some((w, h, d)) => Some((w, h, StandardImageFrameFormat::RGB24, d)),
            None => None,
        },
    }
}

/// Drops the alpha byte of each RGBA pixel.
pub fn strip_alpha_exec(data: &[u8]) -> (r: Vec<u8>)
    ensures
        r@ == strip_alpha(data@),
{
    let mut r: Vec<u8> = Vec::new();
    let mut i: usize = 0;
    while i + 3 < data.len()
        invariant
            i % 4 == 0,
            i <= data.len(),
            r@.len() == (i / 4) * 3,
            forall|j: int| 0 <= j < r@.len() ==> #[trigger] r@[j] == data@[(j / 3) * 4 + j % 3],
        decreases data.len() - i,
    {
        r.push(data[i]);
        r.push(data[i + 1]);
        r.push(data[i + 2]);
        i = i + 4;
    }
    assert(i / 4 == data@.len() / 4);
    assert(r@ =~= strip_alpha(data@));
    r
}

/// Keeps the high byte of each little-endian 16-bit sample.
pub fn downscale_u16_to_u8(data: &[u8]) -> (r: Vec<u8>)
    ensures
        r@ == high_bytes(data@),
{
    let mut r: Vec<u8> = Vec::new();
    let mut i: usize = 0;
    while i + 1 < data.len()
        invariant
            i % 2 == 0,
            i <= data.len(),
            r@.len() == i / 2,
            forall|j: int| 0 <= j < r@.len() ==> #[trigger] r@[j] == data@[2 * j + 1],
        decreases data.len() - i,
    {
        r.push(data[i + 1]);
        i = i + 2;
    }
    assert(i / 2 == data@.len() / 2);
    assert(r@ =~= high_bytes(data@));
    r
}

impl ImageSaver for JpegImageSaver {
    open spec fn saver_formats(&self) -> Seq<StandardImageFrameFormat> {
        all_formats()
    }

    fn supported_formats(&self) -> (r: &'static [StandardImageFrameFormat]) {
        all_formats_exec()
    }

    open spec fn encode_accepts(&self, data: Seq<u8>, image_headers: Option<Vec<HeaderCard>>) -> bool {
        true
    }

    fn encode(&self, data: Vec<u8>, image_headers: Option<Vec<HeaderCard>>) -> (r: Result<Vec<u8>, VastError>)
        ensures
            match r {
                Ok(b) => jpeg_file(self.width, self.height, self.format, self.quality, data@) == Some(b@),
                Err(e) => jpeg_file(self.width, self.height, self.format, self.quality, data@) is None
                    && e.error_type == VastErrorType::FileError,
            },
    {
        let data_len = data.len();
        let expected_len = match expected_data_len(self.width, self.height, self.format) {
            Some(n) => n,
            None => {
                return Err(file_error(owned("JPEG image dimensions overflow")));
            },
        };
        if data_len != expected_len {
            return Err(file_error(owned("invalid JPEG image data length")));
        }
        let ghost pixels_len = self.width as int * self.height as int;
        let (pixels, layout) = match self.format {
            StandardImageFrameFormat::RAW8 => (data, PixelLayout::L8),
            StandardImageFrameFormat::RGB24 => (data, PixelLayout::Rgb8),
            StandardImageFrameFormat::RGB32 => {
                assert((pixels_len * 4) / 4 * 3 == pixels_len * 3);
                (strip_alpha_exec(data.as_slice()), PixelLayout::Rgb8)
            },
            _ => {
                assert((pixels_len * 2) / 2 == pixels_len);
                (downscale_u16_to_u8(data.as_slice()), PixelLayout::L8)
            },
        };
        match jpeg_encode(pixels.as_slice(), self.width, self.height, layout, self.quality) {
            Ok(b) => Ok(b),
            Err(e) => Err(image_file_error("failed to encode JPEG image", &e)),
        }
    }
}

impl ImageReader for JpegImageSaver {
    open spec fn reader_formats(&self) -> Seq<StandardImageFrameFormat> {
        seq![StandardImageFrameFormat::RAW8, StandardImageFrameFormat::RGB24]
    }

    fn supported_formats(&self) -> (r: &'static [StandardImageFrameFormat]) {
        let r: &'static [StandardImageFrameFormat] = &[StandardImageFrameFormat::RAW8, StandardImageFrameFormat::RGB24];
        assert(r@ =~= seq![StandardImageFrameFormat::RAW8, StandardImageFrameFormat::RGB24]);
        r
    }

    fn decode(&self, bytes: &[u8]) -> (r: Result<ImageFrame, VastError>)
        ensures
            match jpeg_frame(bytes@) {
                Some((w, h, f, d)) => r matches Ok(fr) && fr.width == w && fr.height == h && fr.format == f
                    && fr.data@ == d,
                None => r matches Err(e) && e.error_type == VastErrorType::FileError,
            },
    {
        let color = match decode_color(bytes) {
            Ok(c) => c,
            Err(e) => {
                return Err(image_file_error("failed to read JPEG image", &e));
            },
        };
        match color {
            DecodedColor::L8 => decoded_frame(decode_luma8(bytes), StandardImageFrameFormat::RAW8, "failed to read JPEG image"),
            _ => decoded_frame(decode_rgb8(bytes), StandardImageFrameFormat::RGB24, "failed to read JPEG image"),
        }
    }
}

} // verus!
