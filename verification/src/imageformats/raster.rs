//! Calls into the `image` crate's PNG, JPEG and TIFF codecs, and the pixel
//! conversions around them.
use vstd::prelude::*;

use image::ImageEncoder;

use crate::base::errors::{VastError, VastErrorType};
use crate::imageformats::types::{file_error, ImageFrame};
use crate::types::imageformats::StandardImageFrameFormat;
use crate::text::{owned, push_str};

verus! {

#[verifier::external_type_specification]
#[verifier::external_body]
pub struct ExImageError(image::ImageError);

/// Pixel layout handed to an encoder.
#[derive(Clone, Copy, Debug, PartialEq, Eq, Structural)]
pub enum PixelLayout {
    /// 8-bit gray.
    L8,
    /// 16-bit gray, native byte order.
    L16,
    /// 8-bit RGB.
    Rgb8,
    /// 8-bit RGBA.
    Rgba8,
}

/// Bytes per pixel of a layout.
pub open spec fn layout_bytes(l: PixelLayout) -> nat {
    match l {
        PixelLayout::L8 => 1,
        PixelLayout::L16 => 2,
        PixelLayout::Rgb8 => 3,
        PixelLayout::Rgba8 => 4,
    }
}

/// Color type of a decoded image.
#[derive(Clone, Copy, Debug, PartialEq, Eq, Structural)]
pub enum DecodedColor {
    L8,
    L16,
    Rgb8,
    Rgba8,
    /// Any other color type.
    Other,
}

/// The PNG file `PngEncoder::write_image` makes of the pixels, or `None`
/// when it reports an error.
pub uninterp spec fn png_encoding(data: Seq<u8>, width: u32, height: u32, layout: PixelLayout) -> Option<Seq<u8>>;

/// The JPEG file `JpegEncoder::new_with_quality(.., quality).write_image`
/// makes of the pixels, or `None` when it reports an error.
pub uninterp spec fn jpeg_encoding(data: Seq<u8>, width: u32, height: u32, layout: PixelLayout, quality: u8) -> Option<Seq<u8>>;

/// The TIFF file `TiffEncoder::write_image` makes of the pixels, or `None`
/// when it reports an error.
pub uninterp spec fn tiff_encoding(data: Seq<u8>, width: u32, height: u32, layout: PixelLayout) -> Option<Seq<u8>>;

/// The color type `image::load_from_memory` finds in the bytes, or `None`
/// when they do not decode.
pub uninterp spec fn image_color(bytes: Seq<u8>) -> Option<DecodedColor>;

/// Width, height and 8-bit gray samples of the decoded bytes.
pub uninterp spec fn image_luma8(bytes: Seq<u8>) -> Option<(u32, u32, Seq<u8>)>;

/// Width, height and 16-bit gray samples of the decoded bytes.
pub uninterp spec fn image_luma16(bytes: Seq<u8>) -> Option<(u32, u32, Seq<u16>)>;

/// Width, height and 8-bit RGB samples of the decoded bytes.
pub uninterp spec fn image_rgb8(bytes: Seq<u8>) -> Option<(u32, u32, Seq<u8>)>;

/// Width, height and 8-bit RGBA samples of the decoded bytes.
pub uninterp spec fn image_rgba8(bytes: Seq<u8>) -> Option<(u32, u32, Seq<u8>)>;

/// `PngEncoder::write_image` into a new buffer. The encoder asserts that the
/// buffer holds exactly `width * height` pixels of the layout; this claims
/// only that the result is the named encoding.
#[verifier::external_body]
pub(crate) fn png_encode(data: &[u8], width: u32, height: u32, layout: PixelLayout) -> (r: Result<Vec<u8>, image::ImageError>)
    requires
        data.len() == width as int * height as int * layout_bytes(layout) as int,
    ensures
        match r {
            Ok(b) => png_encoding(data@, width, height, layout) == Some(b@),
            Err(_) => png_encoding(data@, width, height, layout) is None,
        },
{
    let color = match layout {
        PixelLayout::L8 => image::ExtendedColorType::L8,
        PixelLayout::L16 => image::ExtendedColorType::L16,
        PixelLayout::Rgb8 => image::ExtendedColorType::Rgb8,
        PixelLayout::Rgba8 => image::ExtendedColorType::Rgba8,
    };
    let mut bytes = Vec::new();
    image::codecs::png::PngEncoder::new(&mut bytes).write_image(data, width, height, color)?;
    Ok(bytes)
}

/// `JpegEncoder::new_with_quality(.., quality).write_image` into a new
/// buffer; the buffer must hold exactly the pixels the encoder asserts. The
/// result is the named encoding.
#[verifier::external_body]
pub(crate) fn jpeg_encode(data: &[u8], width: u32, height: u32, layout: PixelLayout, quality: u8) -> (r: Result<Vec<u8>, image::ImageError>)
    requires
        data.len() == width as int * height as int * layout_bytes(layout) as int,
    ensures
        match r {
            Ok(b) => jpeg_encoding(data@, width, height, layout, quality) == Some(b@),
            Err(_) => jpeg_encoding(data@, width, height, layout, quality) is None,
        },
{
    let color = match layout {
        PixelLayout::L8 => image::ExtendedColorType::L8,
        PixelLayout::L16 => image::ExtendedColorType::L16,
        PixelLayout::Rgb8 => image::ExtendedColorType::Rgb8,
        PixelLayout::Rgba8 => image::ExtendedColorType::Rgba8,
    };
    let mut bytes = Vec::new();
    image::codecs::jpeg::JpegEncoder::new_with_quality(&mut bytes, quality).write_image(data, width, height, color)?;
    Ok(bytes)
}

/// `TiffEncoder::write_image` into a new buffer; the buffer must hold
/// exactly the pixels the encoder asserts. The result is the named encoding.
#[verifier::external_body]
pub(crate) fn tiff_encode(data: &[u8], width: u32, height: u32, layout: PixelLayout) -> (r: Result<Vec<u8>, image::ImageError>)
    requires
        data.len() == width as int * height as int * layout_bytes(layout) as int,
    ensures
        match r {
            Ok(b) => tiff_encoding(data@, width, height, layout) == Some(b@),
            Err(_) => tiff_encoding(data@, width, height, layout) is None,
        },
{
    let color = match layout {
        PixelLayout::L8 => image::ExtendedColorType::L8,
        PixelLayout::L16 => image::ExtendedColorType::L16,
        PixelLayout::Rgb8 => image::ExtendedColorType::Rgb8,
        PixelLayout::Rgba8 => image::ExtendedColorType::Rgba8,
    };
    let mut cursor = std::io::Cursor::new(Vec::new());
    image::codecs::tiff::TiffEncoder::new(&mut cursor).write_image(data, width, height, color)?;
    Ok(cursor.into_inner())
}

/// `image::load_from_memory` followed by `DynamicImage::color`.
#[verifier::external_body]
pub(crate) fn decode_color(bytes: &[u8]) -> (r: Result<DecodedColor, image::ImageError>)
    ensures
        match r {
            Ok(c) => image_color(bytes@) == Some(c),
            Err(_) => image_color(bytes@) is None,
        },
{
    let img = image::load_from_memory(bytes)?;
    Ok(match img.color() {
        image::ColorType::L8 => DecodedColor::L8,
        image::ColorType::L16 => DecodedColor::L16,
        image::ColorType::Rgb8 => DecodedColor::Rgb8,
        image::ColorType::Rgba8 => DecodedColor::Rgba8,
        _ => DecodedColor::Other,
    })
}

/// `image::load_from_memory`, then width, height and `into_luma8().into_raw()`.
#[verifier::external_body]
pub(crate) fn decode_luma8(bytes: &[u8]) -> (r: Result<(u32, u32, Vec<u8>), image::ImageError>)
    ensures
        match r {
            Ok(t) => image_luma8(bytes@) == Some((t.0, t.1, t.2@)),
            Err(_) => image_luma8(bytes@) is None,
        },
{
    let img = image::load_from_memory(bytes)?;
    let (w, h) = (img.width(), img.height());
    Ok((w, h, img.into_luma8().into_raw()))
}

/// `image::load_from_memory`, then width, height and `into_luma16().into_raw()`.
#[verifier::external_body]
pub(crate) fn decode_luma16(bytes: &[u8]) -> (r: Result<(u32, u32, Vec<u16>), image::ImageError>)
    ensures
        match r {
            Ok(t) => image_luma16(bytes@) == Some((t.0, t.1, t.2@)),
            Err(_) => image_luma16(bytes@) is None,
        },
{
    let img = image::load_from_memory(bytes)?;
    let (w, h) = (img.width(), img.height());
    Ok((w, h, img.into_luma16().into_raw()))
}

/// `image::load_from_memory`, then width, height and `into_rgb8().into_raw()`.
#[verifier::external_body]
pub(crate) fn decode_rgb8(bytes: &[u8]) -> (r: Result<(u32, u32, Vec<u8>), image::ImageError>)
    ensures
        match r {
            Ok(t) => image_rgb8(bytes@) == Some((t.0, t.1, t.2@)),
            Err(_) => image_rgb8(bytes@) is None,
        },
{
    let img = image::load_from_memory(bytes)?;
    let (w, h) = (img.width(), img.height());
    Ok((w, h, img.into_rgb8().into_raw()))
}

/// `image::load_from_memory`, then width, height and `into_rgba8().into_raw()`.
#[verifier::external_body]
pub(crate) fn decode_rgba8(bytes: &[u8]) -> (r: Result<(u32, u32, Vec<u8>), image::ImageError>)
    ensures
        match r {
            Ok(t) => image_rgba8(bytes@) == Some((t.0, t.1, t.2@)),
            Err(_) => image_rgba8(bytes@) is None,
        },
{
    let img = image::load_from_memory(bytes)?;
    let (w, h) = (img.width(), img.height());
    Ok((w, h, img.into_rgba8().into_raw()))
}

/// The display text of an `image` error (`Display`).
#[verifier::external_body]
pub(crate) fn image_error_text(e: &image::ImageError) -> String {
    format!("{e}")
}

/// A file error carrying `context` and the text of an `image` error.
pub fn image_file_error(context: &str, e: &image::ImageError) -> (r: VastError)
    ensures
        r.error_type == VastErrorType::FileError,
{
    let mut m = owned(context);
    push_str(&mut m, ": ");
    let t = image_error_text(e);
    push_str(&mut m, t.as_str());
    file_error(m)
}

/// 16-bit samples with the two bytes of each swapped; a trailing odd byte is
/// dropped.
pub open spec fn swap_pairs(data: Seq<u8>) -> Seq<u8> {
    Seq::new(((data.len() / 2) * 2) as nat, |i: int| if i % 2 == 0 {
        data[i + 1]
    } else {
        data[i - 1]
    })
}

/// Swaps the two bytes of each 16-bit sample.
pub fn swap_u16_bytes(data: &[u8]) -> (r: Vec<u8>)
    ensures
        r@ == swap_pairs(data@),
{
    let mut r: Vec<u8> = Vec::new();
    let mut i: usize = 0;
    while i + 1 < data.len()
        invariant
            i % 2 == 0,
            i <= data.len(),
            r@.len() == i,
            forall|j: int| 0 <= j < i ==> #[trigger] r@[j] == (if j % 2 == 0 {
                data@[j + 1]
            } else {
                data@[j - 1]
            }),
        decreases data.len() - i,
    {
        r.push(data[i + 1]);
        r.push(data[i]);
        i = i + 2;
    }
    assert(i == (data@.len() / 2) * 2);
    assert(r@ =~= swap_pairs(data@));
    r
}

/// The bytes of 16-bit samples: big-endian when `big_endian`, else
/// little-endian (the byte order of every supported target).
pub open spec fn u16_bytes(samples: Seq<u16>, big_endian: bool) -> Seq<u8> {
    Seq::new(samples.len() * 2, |i: int| {
        let v = samples[i / 2];
        let hi = (v / 256) as u8;
        let lo = (v % 256) as u8;
        if (i % 2 == 0) == big_endian {
            hi
        } else {
            lo
        }
    })
}

/// Serializes 16-bit samples.
pub fn samples_to_bytes(samples: &[u16], big_endian: bool) -> (r: Vec<u8>)
    requires
        samples.len() * 2 <= usize::MAX,
    ensures
        r@ == u16_bytes(samples@, big_endian),
{
    let mut r: Vec<u8> = Vec::new();
    let mut i: usize = 0;
    while i < samples.len()
        invariant
            i <= samples.len(),
            samples.len() * 2 <= usize::MAX,
            r@.len() == 2 * i,
            forall|j: int| 0 <= j < 2 * i ==> #[trigger] r@[j] == u16_bytes(samples@, big_endian)[j],
        decreases samples.len() - i,
    {
        let v = samples[i];
        let hi = (v / 256) as u8;
        let lo = (v % 256) as u8;
        if big_endian {
            r.push(hi);
            r.push(lo);
        } else {
            r.push(lo);
            r.push(hi);
        }
        i = i + 1;
    }
    assert(r@ =~= u16_bytes(samples@, big_endian));
    r
}

/// The frame of a pixel decoder's result, or a file error.
pub(crate) fn decoded_frame(
    r: Result<(u32, u32, Vec<u8>), image::ImageError>,
    format: StandardImageFrameFormat,
    context: &str,
) -> (f: Result<ImageFrame, VastError>)
    ensures
        match r {
            Ok(t) => f matches Ok(fr) && fr.width == t.0 && fr.height == t.1 && fr.format == format
                && fr.data@ == t.2@,
            Err(_) => f matches Err(e) && e.error_type == VastErrorType::FileError,
        },
{
    match r {
        Ok((width, height, data)) => Ok(ImageFrame { width, height, format, data }),
        Err(e) => Err(image_file_error(context, &e)),
    }
}

} // verus!
