//! Image metadata, FITS header values and the saver interface.
use vstd::prelude::*;

use crate::base::errors::{VastError, VastErrorType};
use crate::types::imageformats::{spec_bytes_per_pixel, ImageFrameFormat, StandardImageFrameFormat};

pub use crate::types::imageformats::{ImageFrame, ImageReader};

verus! {

/// Typed FITS header value.
#[derive(Debug, Clone, PartialEq)]
pub enum FitsHeaderValue {
    /// String header value.
    String(String),
    /// Integer header value.
    Integer(i64),
    /// Real header value, given in units of 10^-10 (the ten decimals the
    /// writer prints).
    Fixed(i64),
    /// Boolean header value.
    Boolean(bool),
}

/// What a header value denotes.
pub ghost enum FitsValueView {
    Str(Seq<char>),
    Int(int),
    Fixed(int),
    Bool(bool),
}

impl View for FitsHeaderValue {
    type V = FitsValueView;

    open spec fn view(&self) -> FitsValueView {
        match self {
            FitsHeaderValue::String(s) => FitsValueView::Str(s@),
            FitsHeaderValue::Integer(i) => FitsValueView::Int(*i as int),
            FitsHeaderValue::Fixed(u) => FitsValueView::Fixed(*u as int),
            FitsHeaderValue::Boolean(b) => FitsValueView::Bool(*b),
        }
    }
}

/// One FITS header card before serialization to the 80-byte FITS card format.
#[derive(Debug, Clone, PartialEq)]
pub struct HeaderCard {
    /// FITS keyword. Must be valid for the target writer.
    pub key: &'static str,
    /// FITS keyword value.
    pub value: FitsHeaderValue,
    /// FITS comment associated with the keyword.
    pub comment: &'static str,
}

/// Optional image metadata written as FITS header cards. Real numbers are
/// held in units of 10^-10, as [`FitsHeaderValue::Fixed`] writes them.
#[derive(Debug, Clone, Default, PartialEq)]
pub struct ImageHeaders {
    /// Capture software name.
    pub software: Option<String>,
    /// Frame type, such as `Light` or `Dark`.
    pub image_type: Option<String>,
    /// Target name.
    pub object: Option<String>,
    /// Camera name.
    pub instrument: Option<String>,
    /// Telescope name.
    pub telescope: Option<String>,
    /// Observer name.
    pub observer: Option<String>,
    /// UTC start of the exposure.
    pub date_obs: Option<String>,
    /// Exposure time in seconds, in units of 10^-10.
    pub exposure_seconds: Option<i64>,
    /// Filter name.
    pub filter: Option<String>,
    /// Camera gain.
    pub gain: Option<u32>,
    /// Camera offset.
    pub offset: Option<u32>,
    /// Sensor temperature in Celsius, in units of 10^-10.
    pub ccd_temperature: Option<i64>,
    /// Cooler target temperature in Celsius, in units of 10^-10.
    pub target_temperature: Option<i64>,
    /// Horizontal binning.
    pub bin_x: Option<u32>,
    /// Vertical binning.
    pub bin_y: Option<u32>,
    /// Subframe X origin.
    pub frame_x: Option<u32>,
    /// Subframe Y origin.
    pub frame_y: Option<u32>,
    /// Subframe width.
    pub frame_width: Option<u32>,
    /// Subframe height.
    pub frame_height: Option<u32>,
    /// Bayer pattern name.
    pub bayer_pattern: Option<String>,
    /// Right ascension in degrees, in units of 10^-10.
    pub ra_degrees: Option<i64>,
    /// Declination in degrees, in units of 10^-10.
    pub dec_degrees: Option<i64>,
    /// Image scale in arcseconds per pixel, in units of 10^-10.
    pub pixel_scale_arcsec: Option<i64>,
    /// Focal length in millimetres, in units of 10^-10.
    pub focal_length_mm: Option<i64>,
    /// Aperture diameter in millimetres, in units of 10^-10.
    pub aperture_mm: Option<i64>,
}

/// The view of a header card.
pub open spec fn card_view(c: HeaderCard) -> (Seq<char>, FitsValueView, Seq<char>) {
    (c.key@, c.value@, c.comment@)
}

/// One card when the value is present, none otherwise.
pub open spec fn optional_card(key: Seq<char>, v: Option<FitsValueView>, comment: Seq<char>) -> Seq<(Seq<char>, FitsValueView, Seq<char>)> {
    match v {
        Some(x) => seq![(key, x, comment)],
        None => Seq::empty(),
    }
}

/// The view of an optional header value.
pub open spec fn value_opt(v: Option<FitsHeaderValue>) -> Option<FitsValueView> {
    match v {
        Some(x) => Some(x@),
        None => None,
    }
}

/// An optional text value.
pub open spec fn str_opt(v: Option<String>) -> Option<FitsValueView> {
    match v {
        Some(s) => Some(FitsValueView::Str(s@)),
        None => None,
    }
}

/// An optional real value in units of 10^-10.
pub open spec fn fixed_opt(v: Option<i64>) -> Option<FitsValueView> {
    match v {
        Some(x) => Some(FitsValueView::Fixed(x as int)),
        None => None,
    }
}

/// An optional integer value.
pub open spec fn int_opt(v: Option<u32>) -> Option<FitsValueView> {
    match v {
        Some(x) => Some(FitsValueView::Int(x as int)),
        None => None,
    }
}

fn str_value(v: &Option<String>) -> (r: Option<FitsHeaderValue>)
    ensures
        value_opt(r) == str_opt(*v),
{
    match v {
        Some(s) => Some(FitsHeaderValue::String(copy_string(s))),
        None => None,
    }
}

fn fixed_value(v: Option<i64>) -> (r: Option<FitsHeaderValue>)
    ensures
        value_opt(r) == fixed_opt(v),
{
    match v {
        Some(x) => Some(FitsHeaderValue::Fixed(x)),
        None => None,
    }
}

fn int_value(v: Option<u32>) -> (r: Option<FitsHeaderValue>)
    ensures
        value_opt(r) == int_opt(v),
{
    match v {
        Some(x) => Some(FitsHeaderValue::Integer(x as i64)),
        None => None,
    }
}

/// The cards of a set of image headers, in writing order.
pub open spec fn header_cards(h: ImageHeaders) -> Seq<(Seq<char>, FitsValueView, Seq<char>)> {
    seq![
        ("SIMPLE"@, FitsValueView::Bool(true), "file conforms to FITS standard"@),
        ("EXTEND"@, FitsValueView::Bool(true), "FITS dataset may contain extensions"@),
    ]
        + optional_card("CREATOR"@, str_opt(h.software), "Capture software"@)
        + optional_card("IMAGETYP"@, str_opt(h.image_type), "Image type"@)
        + optional_card("OBJECT"@, str_opt(h.object), "Target name"@)
        + optional_card("INSTRUME"@, str_opt(h.instrument), "Imaging instrument"@)
        + optional_card("TELESCOP"@, str_opt(h.telescope), "Telescope"@)
        + optional_card("OBSERVER"@, str_opt(h.observer), "Observer"@)
        + optional_card("DATE-OBS"@, str_opt(h.date_obs), "UTC observation start"@)
        + optional_card("FILTER"@, str_opt(h.filter), "Filter name"@)
        + optional_card("EXPTIME"@, fixed_opt(h.exposure_seconds), "Exposure time (s)"@)
        + optional_card("EXPOSURE"@, fixed_opt(h.exposure_seconds), "Exposure time (s)"@)
        + optional_card("GAIN"@, int_opt(h.gain), "Camera gain"@)
        + optional_card("OFFSET"@, int_opt(h.offset), "Camera offset"@)
        + optional_card("CCD-TEMP"@, fixed_opt(h.ccd_temperature), "CCD temperature (C)"@)
        + optional_card("SET-TEMP"@, fixed_opt(h.target_temperature), "Target temperature (C)"@)
        + optional_card("XBINNING"@, int_opt(h.bin_x), "X binning"@)
        + optional_card("YBINNING"@, int_opt(h.bin_y), "Y binning"@)
        + optional_card("XORGSUBF"@, int_opt(h.frame_x), "Subframe X origin"@)
        + optional_card("YORGSUBF"@, int_opt(h.frame_y), "Subframe Y origin"@)
        + optional_card("XPIXSZ"@, int_opt(h.frame_width), "Subframe width (px)"@)
        + optional_card("YPIXSZ"@, int_opt(h.frame_height), "Subframe height (px)"@)
        + optional_card("BAYERPAT"@, str_opt(h.bayer_pattern), "Bayer pattern"@)
        + optional_card("RA"@, fixed_opt(h.ra_degrees), "Right ascension (degrees)"@)
        + optional_card("DEC"@, fixed_opt(h.dec_degrees), "Declination (degrees)"@)
        + optional_card("SCALE"@, fixed_opt(h.pixel_scale_arcsec), "Image scale (arcsec/pixel)"@)
        + optional_card("FOCALLEN"@, fixed_opt(h.focal_length_mm), "Focal length (mm)"@)
        + optional_card("APTDIA"@, fixed_opt(h.aperture_mm), "Aperture diameter (mm)"@)
}

/// A copy of a string.
fn copy_string(s: &String) -> (r: String)
    ensures
        r@ == s@,
{
    crate::text::owned(s.as_str())
}

/// Appends a card when the value is present.
fn push_optional(headers: &mut Vec<HeaderCard>, key: &'static str, value: Option<FitsHeaderValue>, comment: &'static str)
    ensures
        final(headers)@.map_values(|c: HeaderCard| card_view(c)) == old(headers)@.map_values(|c: HeaderCard| card_view(c))
            + optional_card(key@, value_opt(value), comment@),
{
    let ghost before = headers@;
    if let Some(value) = value {
        headers.push(HeaderCard { key, value, comment });
        assert(headers@.map_values(|c: HeaderCard| card_view(c)) =~= before.map_values(|c: HeaderCard| card_view(c))
            + optional_card(key@, Some(headers@.last().value@), comment@));
    } else {
        assert(headers@.map_values(|c: HeaderCard| card_view(c)) =~= before.map_values(|c: HeaderCard| card_view(c))
            + Seq::empty());
    }
}

impl ImageHeaders {
    /// The FITS header cards of the metadata: `SIMPLE` and `EXTEND`, then one
    /// card per value present.
    pub fn to_fits_headers(&self) -> (r: Vec<HeaderCard>)
        ensures
            r@.map_values(|c: HeaderCard| card_view(c)) == header_cards(*self),
    {
        let mut headers: Vec<HeaderCard> = Vec::new();
        headers.push(HeaderCard { key: "SIMPLE", value: FitsHeaderValue::Boolean(true), comment: "file conforms to FITS standard" });
        headers.push(HeaderCard { key: "EXTEND", value: FitsHeaderValue::Boolean(true), comment: "FITS dataset may contain extensions" });
        assert(headers@.map_values(|c: HeaderCard| card_view(c)) =~= seq![
            ("SIMPLE"@, FitsValueView::Bool(true), "file conforms to FITS standard"@),
            ("EXTEND"@, FitsValueView::Bool(true), "FITS dataset may contain extensions"@),
        ]);
        push_optional(&mut headers, "CREATOR", str_value(&self.software), "Capture software");
        push_optional(&mut headers, "IMAGETYP", str_value(&self.image_type), "Image type");
        push_optional(&mut headers, "OBJECT", str_value(&self.object), "Target name");
        push_optional(&mut headers, "INSTRUME", str_value(&self.instrument), "Imaging instrument");
        push_optional(&mut headers, "TELESCOP", str_value(&self.telescope), "Telescope");
        push_optional(&mut headers, "OBSERVER", str_value(&self.observer), "Observer");
        push_optional(&mut headers, "DATE-OBS", str_value(&self.date_obs), "UTC observation start");
        push_optional(&mut headers, "FILTER", str_value(&self.filter), "Filter name");
        push_optional(&mut headers, "EXPTIME", fixed_value(self.exposure_seconds), "Exposure time (s)");
        push_optional(&mut headers, "EXPOSURE", fixed_value(self.exposure_seconds), "Exposure time (s)");
        push_optional(&mut headers, "GAIN", int_value(self.gain), "Camera gain");
        push_optional(&mut headers, "OFFSET", int_value(self.offset), "Camera offset");
        push_optional(&mut headers, "CCD-TEMP", fixed_value(self.ccd_temperature), "CCD temperature (C)");
        push_optional(&mut headers, "SET-TEMP", fixed_value(self.target_temperature), "Target temperature (C)");
        push_optional(&mut headers, "XBINNING", int_value(self.bin_x), "X binning");
        push_optional(&mut headers, "YBINNING", int_value(self.bin_y), "Y binning");
        push_optional(&mut headers, "XORGSUBF", int_value(self.frame_x), "Subframe X origin");
        push_optional(&mut headers, "YORGSUBF", int_value(self.frame_y), "Subframe Y origin");
        push_optional(&mut headers, "XPIXSZ", int_value(self.frame_width), "Subframe width (px)");
        push_optional(&mut headers, "YPIXSZ", int_value(self.frame_height), "Subframe height (px)");
        push_optional(&mut headers, "BAYERPAT", str_value(&self.bayer_pattern), "Bayer pattern");
        push_optional(&mut headers, "RA", fixed_value(self.ra_degrees), "Right ascension (degrees)");
        push_optional(&mut headers, "DEC", fixed_value(self.dec_degrees), "Declination (degrees)");
        push_optional(&mut headers, "SCALE", fixed_value(self.pixel_scale_arcsec), "Image scale (arcsec/pixel)");
        push_optional(&mut headers, "FOCALLEN", fixed_value(self.focal_length_mm), "Focal length (mm)");
        push_optional(&mut headers, "APTDIA", fixed_value(self.aperture_mm), "Aperture diameter (mm)");
        headers
    }
}

/// Encodes frames into the bytes of an image file.
pub trait ImageSaver {
    /// Formats this saver accepts.
    spec fn saver_formats(&self) -> Seq<StandardImageFrameFormat>;

    /// Formats this saver accepts.
    fn supported_formats(&self) -> (r: &'static [StandardImageFrameFormat])
        ensures
            r@ == self.saver_formats(),
    ;

    /// The inputs on which [`ImageSaver::encode`] runs to an end (it may
    /// still return an error on them).
    spec fn encode_accepts(&self, data: Seq<u8>, image_headers: Option<Vec<HeaderCard>>) -> bool;

    /// Encodes image bytes with optional header cards into file contents.
    fn encode(&self, data: Vec<u8>, image_headers: Option<Vec<HeaderCard>>) -> (r: Result<Vec<u8>, VastError>)
        requires
            self.encode_accepts(data@, image_headers),
    ;
}

/// Byte length of a `width x height` frame in `format`.
pub open spec fn frame_len(width: u32, height: u32, format: StandardImageFrameFormat) -> int {
    width as int * height as int * spec_bytes_per_pixel(format) as int
}

/// Byte length of a `width x height` frame in `format`, or `None` when it
/// does not fit in `usize`.
pub fn expected_data_len(width: u32, height: u32, format: StandardImageFrameFormat) -> (r: Option<usize>)
    ensures
        match r {
            Some(n) => n == frame_len(width, height, format),
            None => frame_len(width, height, format) > usize::MAX,
        },
{
    let bytes_per_pixel = format.bytes_per_pixel();
    match (width as usize).checked_mul(height as usize) {
        Some(pixels) => match pixels.checked_mul(bytes_per_pixel) {
            Some(n) => Some(n),
            None => None,
        },
        None => {
            proof {
                assert(width as int * height as int * spec_bytes_per_pixel(format) as int
                    >= width as int * height as int) by (nonlinear_arith)
                    requires
                        spec_bytes_per_pixel(format) >= 1,
                ;
            }
            None
        },
    }
}

/// A file-domain error.
pub fn file_error(message: String) -> (e: VastError)
    ensures
        e.error_type == VastErrorType::FileError,
{
    VastError::new(VastErrorType::FileError, message)
}

/// Every supported pixel format, in declaration order.
pub open spec fn all_formats() -> Seq<StandardImageFrameFormat> {
    seq![
        StandardImageFrameFormat::RAW8,
        StandardImageFrameFormat::RAW10,
        StandardImageFrameFormat::RAW12,
        StandardImageFrameFormat::RAW14,
        StandardImageFrameFormat::RAW16,
        StandardImageFrameFormat::RGB24,
        StandardImageFrameFormat::RGB32,
    ]
}

/// The list of every pixel format.
pub fn all_formats_exec() -> (r: &'static [StandardImageFrameFormat])
    ensures
        r@ == all_formats(),
{
    let r: &'static [StandardImageFrameFormat] = &[
        StandardImageFrameFormat::RAW8,
        StandardImageFrameFormat::RAW10,
        StandardImageFrameFormat::RAW12,
        StandardImageFrameFormat::RAW14,
        StandardImageFrameFormat::RAW16,
        StandardImageFrameFormat::RGB24,
        StandardImageFrameFormat::RGB32,
    ];
    assert(r@ =~= all_formats());
    r
}

} // verus!
