//! PNG reader and writer.
use vstd::prelude::*;

use crate::base::errors::{VastError, VastErrorType};
use crate::imageformats::raster::{
    decode_color, decoded_frame, decode_luma16, decode_luma8, decode_rgb8, decode_rgba8, image_color,
    image_file_error, image_luma16, image_luma8, image_rgb8, image_rgba8, png_encode, png_encoding,
    samples_to_bytes, swap_pairs, swap_u16_bytes, u16_bytes, DecodedColor, PixelLayout,
};
use crate::imageformats::types::{
    all_formats, all_formats_exec, expected_data_len, file_error, frame_len, HeaderCard, ImageFrame, ImageReader,
    ImageSaver,
};
use crate::text::owned;
use crate::types::imageformats::{is_wide_raw, StandardImageFrameFormat};

verus! {

/// PNG saver configured for one image geometry and frame format.
#[derive(Debug, Clone, Copy, PartialEq, Eq, Structural)]
pub struct PngImageSaver {
    pub width: u32,
    pub height: u32,
    pub format: StandardImageFrameFormat,
}

impl PngImageSaver {
    /// Creates a PNG saver for frames with the given dimensions and format.
    pub fn new(width: u32, height: u32, format: StandardImageFrameFormat) -> (r: Self)
        ensures
            r.width == width,
            r.height == height,
            r.format == format,
    {
        PngImageSaver { width, height, format }
    }
}

/// Layout of the PNG pixels of a frame format.
pub open spec fn png_layout(f: StandardImageFrameFormat) -> PixelLayout {
    match f {
        StandardImageFrameFormat::RAW8 => PixelLayout::L8,
        StandardImageFrameFormat::RGB24 => PixelLayout::Rgb8,
        StandardImageFrameFormat::RGB32 => PixelLayout::Rgba8,
        _ => PixelLayout::L16,
    }
}

/// The pixel bytes handed to the PNG encoder: 16-bit samples, held
/// little-endian (the byte order of the hosts this library supports), are
/// byte-swapped to the big-endian order the encoder reads.
pub open spec fn png_pixels(data: Seq<u8>, f: StandardImageFrameFormat) -> Seq<u8> {
    if is_wide_raw(f) {
        swap_pairs(data)
    } else {
        data
    }
}

/// The PNG file for a frame, or `None` where the saver reports an error.
pub open spec fn png_file(w: u32, h: u32, f: StandardImageFrameFormat, data: Seq<u8>) -> Option<Seq<u8>> {
    if data.len() != frame_len(w, h, f) {
        None
    } else {
        png_encoding(png_pixels(data, f), w, h, png_layout(f))
    }
}

/// The frame read from PNG bytes: gray 8 and 16 bits, RGB and RGBA are kept
/// (16-bit samples serialized big-endian), other color types become RGBA.
pub open spec fn png_frame(bytes: Seq<u8>) -> Option<(u32, u32, StandardImageFrameFormat, Seq<u8>)> {
    match image_color(bytes) {
        None => None,
        Some(DecodedColor::L8) => match image_luma8(bytes) {
            Some((w, h, d)) => Some((w, h, StandardImageFrameFormat::RAW8, d)),
            None => None,
        },
        Some(DecodedColor::L16) => match image_luma16(bytes) {
            Some((w, h, d)) => if d.len() * 2 <= usize::MAX {
                Some((w, h, StandardImageFrameFormat::RAW16, u16_bytes(d, true)))
            } else {
                None
            },
            None => None,
        },
        Some(DecodedColor::Rgb8) => match image_rgb8(bytes) {
            Some((w, h, d)) => Some((w, h, StandardImageFrameFormat::RGB24, d)),
            None => None,
        },
        Some(_) => match image_rgba8(bytes) {
            Some((w, h, d)) => Some((w, h, StandardImageFrameFormat::RGB32, d)),
            None => None,
        },
    }
}

impl ImageSaver for PngImageSaver {
    open spec fn saver_formats(&self) -> Seq<StandardImageFrameFormat> {
        all_formats()
    }

    fn supported_formats(&self) -> (r: &'static [StandardImageFrameFormat]) {
        all_formats_exec()
    }

    open spec fn encode_accepts(&self, data: Seq<u8>, image_headers: Option<Vec<HeaderCard>>) -> bool {
        true
    }

    fn encode(&self, data: Vec<u8>, image_headers: Option<Vec<HeaderCard>>) -> (r: Result<Vec<u8>, VastError>)
        ensures
            match r {
                Ok(b) => png_file(self.width, self.height, self.format, data@) == Some(b@),
                Err(e) => png_file(self.width, self.height, self.format, data@) is None && e.error_type
                    == VastErrorType::FileError,
            },
    {
        let data_len = data.len();
        let expected_len = match expected_data_len(self.width, self.height, self.format) {
            Some(n) => n,
            None => {
                return Err(file_error(owned("PNG image dimensions overflow")));
            },
        };
        if data_len != expected_len {
            return Err(file_error(owned("invalid PNG image data length")));
        }
        let (pixels, layout) = match self.format {
            StandardImageFrameFormat::RAW8 => (data, PixelLayout::L8),
            StandardImageFrameFormat::RGB24 => (data, PixelLayout::Rgb8),
            StandardImageFrameFormat::RGB32 => (data, PixelLayout::Rgba8),
            _ => (swap_u16_bytes(data.as_slice()), PixelLayout::L16),
        };
        match png_encode(pixels.as_slice(), self.width, self.height, layout) {
            Ok(b) => Ok(b),
            Err(e) => Err(image_file_error("failed to encode PNG image", &e)),
        }
    }
}

impl ImageReader for PngImageSaver {
    open spec fn reader_formats(&self) -> Seq<StandardImageFrameFormat> {
        seq![
            StandardImageFrameFormat::RAW8,
            StandardImageFrameFormat::RAW16,
            StandardImageFrameFormat::RGB24,
            StandardImageFrameFormat::RGB32,
        ]
    }

    fn supported_formats(&self) -> (r: &'static [StandardImageFrameFormat]) {
        let r: &'static [StandardImageFrameFormat] = &[
            StandardImageFrameFormat::RAW8,
            StandardImageFrameFormat::RAW16,
            StandardImageFrameFormat::RGB24,
            StandardImageFrameFormat::RGB32,
        ];
        assert(r@ =~= seq![
            StandardImageFrameFormat::RAW8,
            StandardImageFrameFormat::RAW16,
            StandardImageFrameFormat::RGB24,
            StandardImageFrameFormat::RGB32,
        ]);
        r
    }

    fn decode(&self, bytes: &[u8]) -> (r: Result<ImageFrame, VastError>)
        ensures
            match png_frame(bytes@) {
                Some((w, h, f, d)) => r matches Ok(fr) && fr.width == w && fr.height == h && fr.format == f
                    && fr.data@ == d,
                None => r matches Err(e) && e.error_type == VastErrorType::FileError,
            },
    {
        let color = match decode_color(bytes) {
            Ok(c) => c,
            Err(e) => {
                return Err(image_file_error("failed to read PNG image", &e));
            },
        };
        match color {
            DecodedColor::L8 => decoded_frame(decode_luma8(bytes), StandardImageFrameFormat::RAW8, "failed to read PNG image"),
            DecodedColor::L16 => match decode_luma16(bytes) {
                Ok((width, height, samples)) => {
                    if samples.len() > usize::MAX / 2 {
                        return Err(file_error(owned("PNG image too large")));
                    }
                    let data = samples_to_bytes(samples.as_slice(), true);
                    Ok(ImageFrame { width, height, format: StandardImageFrameFormat::RAW16, data })
                },
                Err(e) => Err(image_file_error("failed to read PNG image", &e)),
            },
            DecodedColor::Rgb8 => decoded_frame(decode_rgb8(bytes), StandardImageFrameFormat::RGB24, "failed to read PNG image"),
            _ => decoded_frame(decode_rgba8(bytes), StandardImageFrameFormat::RGB32, "failed to read PNG image"),
        }
    }
}

} // verus!
