//! XISF reader and writer.
//!
//! Only monolithic files with one image and one attached, uncompressed data
//! block are written and read; the reader expects headers close to what the
//! writer produces and is no general XML parser.
use vstd::prelude::*;
use vstd::utf8::{decode_utf8, encode_utf8, valid_utf8};

use crate::base::errors::{VastError, VastErrorType};
use crate::imageformats::types::{
    all_formats, all_formats_exec, expected_data_len, file_error, frame_len, HeaderCard, ImageFrame, ImageReader,
    ImageSaver,
};
use crate::scan::{find_from, find_seq, pieces_view, split_chars, split_parts};
use crate::text::{
    chars_eq_str, decimal, decimal_chars, lemma_encode_concat, owned, pad_left, parse_u32,
    parse_u32_spec, parse_usize, parse_usize_spec, push_bytes, push_utf8, slice_range, str_chars,
    str_from_utf8, trim, trimmed, vpush_chars, vpush_padded_left, vpush_str,
};
use crate::types::imageformats::{
    is_wide_raw, spec_format_name, ImageFrameFormat, StandardImageFrameFormat,
};

verus! {

/// XISF saver and reader configured for one image geometry and frame format.
#[derive(Debug, Clone, Copy, PartialEq, Eq, Structural)]
pub struct XisfImageSaver {
    pub width: u32,
    pub height: u32,
    pub format: StandardImageFrameFormat,
}

impl XisfImageSaver {
    /// Creates an XISF saver for frames with the given dimensions and format.
    pub fn new(width: u32, height: u32, format: StandardImageFrameFormat) -> (r: Self)
        ensures
            r.width == width,
            r.height == height,
            r.format == format,
    {
        XisfImageSaver { width, height, format }
    }
}

// ---------------------------------------------------------------------------
// The file the writer produces
// ---------------------------------------------------------------------------

/// The file signature, `XISF0100`.
pub open spec fn xisf_signature() -> Seq<u8> {
    seq![88u8, 73u8, 83u8, 70u8, 48u8, 49u8, 48u8, 48u8]
}

/// The four little-endian bytes of a 32-bit value.
pub open spec fn le_u32_bytes(n: nat) -> Seq<u8> {
    seq![
        (n % 256) as u8,
        ((n / 256) % 256) as u8,
        ((n / 65536) % 256) as u8,
        ((n / 16777216) % 256) as u8,
    ]
}

/// The little-endian 32-bit value held by `b[i..i + 4]`.
pub open spec fn le_u32_at(b: Seq<u8>, i: int) -> nat {
    b[i] as nat + b[i + 1] as nat * 256 + b[i + 2] as nat * 65536 + b[i + 3] as nat * 16777216
}

/// Channels per pixel of a format.
pub open spec fn xisf_channels(f: StandardImageFrameFormat) -> nat {
    match f {
        StandardImageFrameFormat::RGB24 => 3,
        StandardImageFrameFormat::RGB32 => 4,
        _ => 1,
    }
}

/// The `sampleFormat` attribute of a format.
pub open spec fn xisf_sample_format(f: StandardImageFrameFormat) -> Seq<char> {
    if is_wide_raw(f) {
        "UInt16"@
    } else {
        "UInt8"@
    }
}

/// The `colorSpace` attribute, with its leading space, of color formats.
pub open spec fn xisf_color_space(f: StandardImageFrameFormat) -> Seq<char> {
    match f {
        StandardImageFrameFormat::RGB24 | StandardImageFrameFormat::RGB32 => " colorSpace=\"RGB\""@,
        _ => Seq::empty(),
    }
}

/// The `geometry` attribute: `width:height:channels`.
pub open spec fn xisf_geometry(w: u32, h: u32, f: StandardImageFrameFormat) -> Seq<char> {
    decimal(w as nat) + seq![':'] + decimal(h as nat) + seq![':'] + decimal(xisf_channels(f))
}

/// The `location` attribute of a data block attached at `offset` with `len`
/// bytes, both zero-padded to twenty digits.
pub open spec fn xisf_location(offset: nat, len: nat) -> Seq<char> {
    "attachment:"@ + pad_left(decimal(offset), 20, '0') + seq![':'] + pad_left(decimal(len), 20, '0')
}

/// The fixed start of the header: XML declaration, root element and metadata.
pub open spec fn xisf_preamble() -> Seq<char> {
    "<?xml version=\"1.0\" encoding=\"UTF-8\"?>"@
        + "<xisf version=\"1.0\" xmlns=\"http://www.pixinsight.com/xisf\" xmlns:xsi=\"http://www.w3.org/2001/XMLSchema-instance\" xsi:schemaLocation=\"http://www.pixinsight.com/xisf http://pixinsight.com/xisf/xisf-1.0.xsd\">"@
        + "<Metadata>"@
        + "<Property id=\"XISF:CreationTime\" type=\"String\" value=\"1970-01-01T00:00:00Z\"/>"@
        + "<Property id=\"XISF:CreatorApplication\" type=\"String\" value=\"lvast\"/>"@
        + "</Metadata>"@
}

/// The `Image` element, with the frame format's name as the `LVFMT` property.
pub open spec fn xisf_image_element(w: u32, h: u32, f: StandardImageFrameFormat, offset: nat, len: nat) -> Seq<char> {
    xisf_image_shape(w, h, f) + xisf_image_data(f, offset, len)
}

/// The start of the `Image` element: geometry, sample format and color space.
pub open spec fn xisf_image_shape(w: u32, h: u32, f: StandardImageFrameFormat) -> Seq<char> {
    "<Image geometry=\""@ + xisf_geometry(w, h, f) + "\" sampleFormat=\""@ + xisf_sample_format(f) + seq!['"']
        + xisf_color_space(f)
}

/// The rest of the `Image` element: data location and format property.
pub open spec fn xisf_image_data(f: StandardImageFrameFormat, offset: nat, len: nat) -> Seq<char> {
    " location=\""@ + xisf_location(offset, len) + "\">"@ + "<Property id=\"LVFMT\" type=\"String\" value=\""@
        + spec_format_name(f) + "\"/>"@ + "</Image>"@
}

/// The whole XML header.
pub open spec fn xisf_header(w: u32, h: u32, f: StandardImageFrameFormat, offset: nat, len: nat) -> Seq<char> {
    xisf_preamble() + xisf_image_element(w, h, f, offset, len) + "</xisf>"@
}

/// The header of a file whose data block has `len` bytes: the block follows
/// the sixteen bytes of signature and length and the encoded header.
pub open spec fn xisf_final_header(w: u32, h: u32, f: StandardImageFrameFormat, len: nat) -> Seq<char> {
    xisf_header(w, h, f, 16 + encode_utf8(xisf_header(w, h, f, 0, len)).len(), len)
}

/// The XISF file for a frame, or `None` where the saver reports an error:
/// signature, header length, four reserved bytes, the UTF-8 header, then the
/// frame bytes (16-bit samples stay little-endian).
pub open spec fn xisf_file(w: u32, h: u32, f: StandardImageFrameFormat, data: Seq<u8>) -> Option<Seq<u8>> {
    if data.len() != frame_len(w, h, f) {
        None
    } else {
        let hb = encode_utf8(xisf_final_header(w, h, f, data.len()));
        Some(xisf_signature() + le_u32_bytes(hb.len()) + seq![0u8, 0u8, 0u8, 0u8] + hb + data)
    }
}

/// Encoding a character sequence takes at most four bytes per character.
proof fn lemma_encode_len_bound(s: Seq<char>)
    ensures
        encode_utf8(s).len() <= 4 * s.len(),
    decreases s.len(),
{
    if s.len() > 0 {
        lemma_encode_len_bound(s.drop_first());
    }
}

/// Encoded ASCII digits take one byte each.
proof fn lemma_encode_digits_len(s: Seq<char>)
    requires
        crate::text::all_digits(s),
    ensures
        encode_utf8(s).len() == s.len(),
    decreases s.len(),
{
    if s.len() > 0 {
        assert(crate::text::is_digit(s[0]));
        assert(crate::text::all_digits(s.drop_first()));
        lemma_encode_digits_len(s.drop_first());
    }
}

/// The header is the same apart from the twenty offset digits.
proof fn lemma_header_split(w: u32, h: u32, f: StandardImageFrameFormat, offset: nat, len: nat)
    ensures
        xisf_header(w, h, f, offset, len) == header_before_offset(w, h, f) + pad_left(decimal(offset), 20, '0')
            + header_after_offset(f, len),
{
    let p = pad_left(decimal(offset), 20, '0');
    let q = seq![':'] + pad_left(decimal(len), 20, '0');
    let tail = "\">"@ + "<Property id=\"LVFMT\" type=\"String\" value=\""@ + spec_format_name(f) + "\"/>"@ + "</Image>"@;
    assert(xisf_location(offset, len) =~= "attachment:"@ + p + q);
    assert(xisf_image_data(f, offset, len) =~= " location=\""@ + "attachment:"@ + p + (q + tail));
    assert(header_after_offset(f, len) =~= q + tail + "</xisf>"@);
    assert(xisf_header(w, h, f, offset, len) =~= header_before_offset(w, h, f) + p + header_after_offset(f, len));
}

/// What precedes the offset digits in the header.
pub open spec fn header_before_offset(w: u32, h: u32, f: StandardImageFrameFormat) -> Seq<char> {
    xisf_preamble() + xisf_image_shape(w, h, f) + " location=\""@ + "attachment:"@
}

/// What follows the offset digits in the header.
pub open spec fn header_after_offset(f: StandardImageFrameFormat, len: nat) -> Seq<char> {
    seq![':'] + pad_left(decimal(len), 20, '0') + "\">"@ + "<Property id=\"LVFMT\" type=\"String\" value=\""@
        + spec_format_name(f) + "\"/>"@ + "</Image>"@ + "</xisf>"@
}

/// The encoded header length does not depend on the offset, and is small.
pub proof fn lemma_header_encoded_len(w: u32, h: u32, f: StandardImageFrameFormat, o1: nat, o2: nat, len: nat)
    requires
        o1 <= u64::MAX,
        o2 <= u64::MAX,
        len <= u64::MAX,
    ensures
        encode_utf8(xisf_header(w, h, f, o1, len)).len() == encode_utf8(xisf_header(w, h, f, o2, len)).len(),
        encode_utf8(xisf_header(w, h, f, o1, len)).len() <= 4000,
{
    let a = header_before_offset(w, h, f);
    let b = header_after_offset(f, len);
    let p1 = pad_left(decimal(o1), 20, '0');
    let p2 = pad_left(decimal(o2), 20, '0');
    lemma_header_split(w, h, f, o1, len);
    lemma_header_split(w, h, f, o2, len);
    crate::text::lemma_decimal_len_u64(o1 as u64);
    crate::text::lemma_decimal_len_u64(o2 as u64);
    crate::text::lemma_decimal_len_u64(len as u64);
    crate::text::lemma_parse_padded(o1, 20);
    crate::text::lemma_parse_padded(o2, 20);
    lemma_encode_digits_len(p1);
    lemma_encode_digits_len(p2);
    assert(a + p1 + b =~= a + (p1 + b));
    assert(a + p2 + b =~= a + (p2 + b));
    lemma_encode_concat(a, p1 + b);
    lemma_encode_concat(p1, b);
    lemma_encode_concat(a, p2 + b);
    lemma_encode_concat(p2, b);
    lemma_encode_len_bound(xisf_header(w, h, f, o1, len));
    lemma_header_chars_len(w, h, f, o1, len);
}

/// The header has fewer than a thousand characters.
proof fn lemma_header_chars_len(w: u32, h: u32, f: StandardImageFrameFormat, offset: nat, len: nat)
    requires
        offset <= u64::MAX,
        len <= u64::MAX,
    ensures
        xisf_header(w, h, f, offset, len).len() <= 1000,
{
    reveal_strlit("<?xml version=\"1.0\" encoding=\"UTF-8\"?>");
    reveal_strlit("<xisf version=\"1.0\" xmlns=\"http://www.pixinsight.com/xisf\" xmlns:xsi=\"http://www.w3.org/2001/XMLSchema-instance\" xsi:schemaLocation=\"http://www.pixinsight.com/xisf http://pixinsight.com/xisf/xisf-1.0.xsd\">");
    reveal_strlit("<Metadata>");
    reveal_strlit("<Property id=\"XISF:CreationTime\" type=\"String\" value=\"1970-01-01T00:00:00Z\"/>");
    reveal_strlit("<Property id=\"XISF:CreatorApplication\" type=\"String\" value=\"lvast\"/>");
    reveal_strlit("</Metadata>");
    reveal_strlit("<Image geometry=\"");
    reveal_strlit("\" sampleFormat=\"");
    reveal_strlit("UInt16");
    reveal_strlit("UInt8");
    reveal_strlit(" colorSpace=\"RGB\"");
    reveal_strlit(" location=\"");
    reveal_strlit("attachment:");
    reveal_strlit("\">");
    reveal_strlit("<Property id=\"LVFMT\" type=\"String\" value=\"");
    reveal_strlit("RAW8");
    reveal_strlit("RAW10");
    reveal_strlit("RAW12");
    reveal_strlit("RAW14");
    reveal_strlit("RAW16");
    reveal_strlit("RGB24");
    reveal_strlit("RGB32");
    reveal_strlit("\"/>");
    reveal_strlit("</Image>");
    reveal_strlit("</xisf>");
    crate::text::lemma_decimal_len_u32(w);
    crate::text::lemma_decimal_len_u32(h);
    crate::text::lemma_decimal_len_u64(offset as u64);
    crate::text::lemma_decimal_len_u64(len as u64);
    assert(decimal(xisf_channels(f)).len() == 1);
}

/// Appends the `location` attribute value.
fn push_location(v: &mut Vec<char>, offset: u64, len: u64)
    ensures
        final(v)@ == old(v)@ + xisf_location(offset as nat, len as nat),
{
    vpush_str(v, "attachment:");
    let o = decimal_chars(offset);
    vpush_padded_left(v, o.as_slice(), 20, '0');
    v.push(':');
    let n = decimal_chars(len);
    vpush_padded_left(v, n.as_slice(), 20, '0');
    assert(v@ =~= old(v)@ + xisf_location(offset as nat, len as nat));
}

/// Channels per pixel of a format.
fn channel_count(f: StandardImageFrameFormat) -> (r: u64)
    ensures
        r == xisf_channels(f),
{
    match f {
        StandardImageFrameFormat::RGB24 => 3,
        StandardImageFrameFormat::RGB32 => 4,
        _ => 1,
    }
}

/// Appends the fixed start of the header.
fn push_preamble(v: &mut Vec<char>)
    ensures
        final(v)@ == old(v)@ + xisf_preamble(),
{
    vpush_str(v, "<?xml version=\"1.0\" encoding=\"UTF-8\"?>");
    vpush_str(v, "<xisf version=\"1.0\" xmlns=\"http://www.pixinsight.com/xisf\" xmlns:xsi=\"http://www.w3.org/2001/XMLSchema-instance\" xsi:schemaLocation=\"http://www.pixinsight.com/xisf http://pixinsight.com/xisf/xisf-1.0.xsd\">");
    vpush_str(v, "<Metadata>");
    vpush_str(v, "<Property id=\"XISF:CreationTime\" type=\"String\" value=\"1970-01-01T00:00:00Z\"/>");
    vpush_str(v, "<Property id=\"XISF:CreatorApplication\" type=\"String\" value=\"lvast\"/>");
    vpush_str(v, "</Metadata>");
    assert(v@ =~= old(v)@ + xisf_preamble());
}

/// Appends the `geometry` attribute value.
fn push_geometry(v: &mut Vec<char>, w: u32, h: u32, f: StandardImageFrameFormat)
    ensures
        final(v)@ == old(v)@ + xisf_geometry(w, h, f),
{
    let wd = decimal_chars(w as u64);
    vpush_chars(v, wd.as_slice());
    v.push(':');
    let hd = decimal_chars(h as u64);
    vpush_chars(v, hd.as_slice());
    v.push(':');
    let cd = decimal_chars(channel_count(f));
    vpush_chars(v, cd.as_slice());
    assert(v@ =~= old(v)@ + xisf_geometry(w, h, f));
}

/// Appends the start of the `Image` element.
fn push_image_shape(v: &mut Vec<char>, w: u32, h: u32, f: StandardImageFrameFormat)
    ensures
        final(v)@ == old(v)@ + xisf_image_shape(w, h, f),
{
    vpush_str(v, "<Image geometry=\"");
    push_geometry(v, w, h, f);
    vpush_str(v, "\" sampleFormat=\"");
    if is_wide(f) {
        vpush_str(v, "UInt16");
    } else {
        vpush_str(v, "UInt8");
    }
    v.push('"');
    match f {
        StandardImageFrameFormat::RGB24 | StandardImageFrameFormat::RGB32 => {
            vpush_str(v, " colorSpace=\"RGB\"");
        },
        _ => {},
    }
    assert(v@ =~= old(v)@ + xisf_image_shape(w, h, f));
}

/// Appends the rest of the `Image` element.
fn push_image_data(v: &mut Vec<char>, f: StandardImageFrameFormat, offset: u64, len: u64)
    ensures
        final(v)@ == old(v)@ + xisf_image_data(f, offset as nat, len as nat),
{
    vpush_str(v, " location=\"");
    push_location(v, offset, len);
    vpush_str(v, "\">");
    vpush_str(v, "<Property id=\"LVFMT\" type=\"String\" value=\"");
    vpush_str(v, f.name());
    vpush_str(v, "\"/>");
    vpush_str(v, "</Image>");
    assert(v@ =~= old(v)@ + xisf_image_data(f, offset as nat, len as nat));
}

/// The header characters.
fn header_chars(w: u32, h: u32, f: StandardImageFrameFormat, offset: u64, len: u64) -> (r: Vec<char>)
    ensures
        r@ == xisf_header(w, h, f, offset as nat, len as nat),
{
    let mut v: Vec<char> = Vec::new();
    push_preamble(&mut v);
    push_image_shape(&mut v, w, h, f);
    push_image_data(&mut v, f, offset, len);
    vpush_str(&mut v, "</xisf>");
    assert(v@ =~= xisf_header(w, h, f, offset as nat, len as nat));
    v
}

/// The format stores one 16-bit word per pixel.
fn is_wide(f: StandardImageFrameFormat) -> (r: bool)
    ensures
        r == is_wide_raw(f),
{
    match f {
        StandardImageFrameFormat::RAW16
        | StandardImageFrameFormat::RAW14
        | StandardImageFrameFormat::RAW12
        | StandardImageFrameFormat::RAW10 => true,
        _ => false,
    }
}

impl ImageSaver for XisfImageSaver {
    open spec fn saver_formats(&self) -> Seq<StandardImageFrameFormat> {
        all_formats()
    }

    fn supported_formats(&self) -> (r: &'static [StandardImageFrameFormat]) {
        all_formats_exec()
    }

    open spec fn encode_accepts(&self, data: Seq<u8>, image_headers: Option<Vec<HeaderCard>>) -> bool {
        true
    }

    /// Writes the XISF file for a frame; header cards are not written.
    fn encode(&self, data: Vec<u8>, image_headers: Option<Vec<HeaderCard>>) -> (r: Result<Vec<u8>, VastError>)
        ensures
            match r {
                Ok(b) => xisf_file(self.width, self.height, self.format, data@) == Some(b@),
                Err(e) => xisf_file(self.width, self.height, self.format, data@) is None && e.error_type
                    == VastErrorType::FileError,
            },
    {
        let data_len = data.len();
        let expected_len = match expected_data_len(self.width, self.height, self.format) {
            Some(n) => n,
            None => {
                return Err(file_error(owned("XISF image dimensions overflow")));
            },
        };
        if data_len != expected_len {
            return Err(file_error(owned("invalid XISF image data length")));
        }
        let len = data.len() as u64;
        let provisional = header_chars(self.width, self.height, self.format, 0, len);
        let mut provisional_bytes: Vec<u8> = Vec::new();
        push_utf8(&mut provisional_bytes, provisional.as_slice());
        proof {
            lemma_header_encoded_len(self.width, self.height, self.format, 0, 0, len as nat);
            assert(provisional_bytes@ =~= encode_utf8(xisf_header(self.width, self.height, self.format, 0, len as nat)));
        }
        let header_len = provisional_bytes.len();
        let data_offset = 16 + header_len;
        let header = header_chars(self.width, self.height, self.format, data_offset as u64, len);
        proof {
            lemma_header_encoded_len(self.width, self.height, self.format, data_offset as nat, 0, len as nat);
        }
        let n = header_len as u32;
        let mut bytes: Vec<u8> = Vec::new();
        let signature: [u8; 8] = [88u8, 73u8, 83u8, 70u8, 48u8, 49u8, 48u8, 48u8];
        assert(signature@ =~= xisf_signature());
        push_bytes(&mut bytes, &signature);
        let length: [u8; 4] = [(n % 256) as u8, ((n / 256) % 256) as u8, ((n / 65536) % 256) as u8, ((n / 16777216) % 256) as u8];
        assert(length@ =~= le_u32_bytes(n as nat));
        push_bytes(&mut bytes, &length);
        let reserved: [u8; 4] = [0u8, 0u8, 0u8, 0u8];
        push_bytes(&mut bytes, &reserved);
        push_utf8(&mut bytes, header.as_slice());
        push_bytes(&mut bytes, data.as_slice());
        assert(bytes@ =~= xisf_signature() + le_u32_bytes(n as nat) + seq![0u8, 0u8, 0u8, 0u8]
            + encode_utf8(xisf_final_header(self.width, self.height, self.format, data@.len())) + data@);
        Ok(bytes)
    }
}

// ---------------------------------------------------------------------------
// Reading
// ---------------------------------------------------------------------------

/// Start and end of the `Image` element: from `<Image ` to the end of the
/// first `</Image>` after it.
pub open spec fn image_element_bounds(h: Seq<char>) -> Option<(int, int)> {
    match find_from(h, "<Image "@, 0) {
        None => None,
        Some(start) => match find_from(h, "</Image>"@, start) {
            None => None,
            Some(i) => Some((start, i + 8)),
        },
    }
}

/// The value of the first attribute of `tag` introduced by `needle` (the
/// attribute name, `=` and the opening quote), up to the next quote.
pub open spec fn attr_value(tag: Seq<char>, needle: Seq<char>) -> Option<Seq<char>> {
    match find_from(tag, needle, 0) {
        None => None,
        Some(i) => match find_from(tag, seq!['"'], i + needle.len()) {
            None => None,
            Some(e) => Some(tag.subrange(i + needle.len(), e)),
        },
    }
}

/// The `value` attribute of the first property element of `tag` introduced by
/// `needle` (`<Property id="…"`), within that element.
pub open spec fn property_value(tag: Seq<char>, needle: Seq<char>) -> Option<Seq<char>> {
    match find_from(tag, needle, 0) {
        None => None,
        Some(start) => match find_from(tag, "/>"@, start) {
            None => None,
            Some(i) => attr_value(tag.subrange(start, i + 2), "value=\""@),
        },
    }
}

/// `width:height:channels`, each read as `u32`.
pub open spec fn parse_geometry(g: Seq<char>) -> Option<(u32, u32, u32)> {
    let parts = split_parts(g, ':');
    if parts.len() < 3 {
        None
    } else {
        match (parse_u32_spec(parts[0]), parse_u32_spec(parts[1]), parse_u32_spec(parts[2])) {
            (Some(a), Some(b), Some(c)) => Some((a, b, c)),
            _ => None,
        }
    }
}

/// `attachment:offset:length`, offset and length read as `usize`.
pub open spec fn parse_location(l: Seq<char>) -> Option<(usize, usize)> {
    let parts = split_parts(l, ':');
    if parts.len() < 3 || parts[0] != "attachment"@ {
        None
    } else {
        match (parse_usize_spec(parts[1]), parse_usize_spec(parts[2])) {
            (Some(o), Some(n)) => Some((o, n)),
            _ => None,
        }
    }
}

/// The frame format named by `v`, surrounding whitespace ignored.
pub open spec fn parse_format_name(v: Seq<char>) -> Option<StandardImageFrameFormat> {
    let t = trim(v);
    if t == "RAW8"@ {
        Some(StandardImageFrameFormat::RAW8)
    } else if t == "RAW10"@ {
        Some(StandardImageFrameFormat::RAW10)
    } else if t == "RAW12"@ {
        Some(StandardImageFrameFormat::RAW12)
    } else if t == "RAW14"@ {
        Some(StandardImageFrameFormat::RAW14)
    } else if t == "RAW16"@ {
        Some(StandardImageFrameFormat::RAW16)
    } else if t == "RGB24"@ {
        Some(StandardImageFrameFormat::RGB24)
    } else if t == "RGB32"@ {
        Some(StandardImageFrameFormat::RGB32)
    } else {
        None
    }
}

/// The frame format a sample format and channel count stand for.
pub open spec fn infer_format(sample_format: Seq<char>, channels: u32) -> Option<StandardImageFrameFormat> {
    if sample_format == "UInt8"@ && channels == 1 {
        Some(StandardImageFrameFormat::RAW8)
    } else if sample_format == "UInt8"@ && channels == 3 {
        Some(StandardImageFrameFormat::RGB24)
    } else if sample_format == "UInt8"@ && channels == 4 {
        Some(StandardImageFrameFormat::RGB32)
    } else if sample_format == "UInt16"@ && channels == 1 {
        Some(StandardImageFrameFormat::RAW16)
    } else {
        None
    }
}

/// The frame bytes of a data block: 16-bit formats keep whole words only.
pub open spec fn block_frame_data(block: Seq<u8>, f: StandardImageFrameFormat) -> Seq<u8> {
    if is_wide_raw(f) {
        block.subrange(0, block.len() - block.len() % 2)
    } else {
        block
    }
}

/// The frame described by a decoded header and the file bytes.
pub open spec fn frame_from_header(h: Seq<char>, bytes: Seq<u8>) -> Option<(u32, u32, StandardImageFrameFormat, Seq<u8>)> {
    match image_element_bounds(h) {
        None => None,
        Some((a, b)) => {
            let tag = h.subrange(a, b);
            match (attr_value(tag, "geometry=\""@), attr_value(tag, "sampleFormat=\""@), attr_value(tag, "location=\""@)) {
                (Some(g), Some(sf), Some(loc)) => match parse_geometry(g) {
                    None => None,
                    Some((w, hh, c)) => {
                        let format = match property_value(tag, "<Property id=\"LVFMT\""@) {
                            Some(v) => parse_format_name(v),
                            None => infer_format(sf, c),
                        };
                        match format {
                            None => None,
                            Some(f) => match parse_location(loc) {
                                None => None,
                                Some((off, n)) => if off + n > bytes.len() {
                                    None
                                } else {
                                    Some((w, hh, f, block_frame_data(bytes.subrange(off as int, off + n), f)))
                                },
                            },
                        }
                    },
                },
                _ => None,
            }
        },
    }
}

/// The frame read from XISF bytes, or `None` where the reader reports an error.
pub open spec fn xisf_frame(bytes: Seq<u8>) -> Option<(u32, u32, StandardImageFrameFormat, Seq<u8>)> {
    if bytes.len() < 16 || bytes.subrange(0, 8) != xisf_signature() {
        None
    } else {
        let header_end = 16 + le_u32_at(bytes, 8);
        if header_end > bytes.len() {
            None
        } else {
            let hb = bytes.subrange(16, header_end as int);
            if !valid_utf8(hb) {
                None
            } else {
                frame_from_header(decode_utf8(hb), bytes)
            }
        }
    }
}

/// The bounds of the `Image` element.
fn image_element_bounds_exec(h: &[char]) -> (r: Option<(usize, usize)>)
    ensures
        match r {
            Some((a, b)) => image_element_bounds(h@) == Some((a as int, b as int)) && a <= b <= h.len(),
            None => image_element_bounds(h@) is None,
        },
{
    let open_tag = str_chars("<Image ");
    let close_tag = str_chars("</Image>");
    proof {
        reveal_strlit("</Image>");
    }
    match find_seq(h, open_tag.as_slice(), 0) {
        None => None,
        Some(start) => match find_seq(h, close_tag.as_slice(), start) {
            None => None,
            Some(i) => {
                proof {
                    crate::scan::lemma_find_from_found(h@, open_tag@, 0);
                    crate::scan::lemma_find_from_found(h@, close_tag@, start as int);
                }
                Some((start, i + 8))
            },
        },
    }
}

/// The value of the attribute introduced by `needle`.
fn attr_value_exec(tag: &[char], needle: &[char]) -> (r: Option<Vec<char>>)
    ensures
        match r {
            Some(v) => attr_value(tag@, needle@) == Some(v@),
            None => attr_value(tag@, needle@) is None,
        },
{
    match find_seq(tag, needle, 0) {
        None => None,
        Some(i) => {
            proof {
                crate::scan::lemma_find_from_found(tag@, needle@, 0);
            }
            let start = i + needle.len();
            let quote = ['"'];
            assert(quote@ =~= seq!['"']);
            match find_seq(tag, &quote, start) {
                None => None,
                Some(e) => {
                    proof {
                        crate::scan::lemma_find_from_found(tag@, seq!['"'], start as int);
                    }
                    Some(slice_range(tag, start, e))
                },
            }
        },
    }
}

/// The `value` of the property introduced by `needle`.
fn property_value_exec(tag: &[char], needle: &[char]) -> (r: Option<Vec<char>>)
    ensures
        match r {
            Some(v) => property_value(tag@, needle@) == Some(v@),
            None => property_value(tag@, needle@) is None,
        },
{
    match find_seq(tag, needle, 0) {
        None => None,
        Some(start) => {
            let close = str_chars("/>");
            proof {
                reveal_strlit("/>");
                crate::scan::lemma_find_from_found(tag@, needle@, 0);
            }
            match find_seq(tag, close.as_slice(), start) {
                None => None,
                Some(i) => {
                    proof {
                        crate::scan::lemma_find_from_found(tag@, close@, start as int);
                    }
                    let element = slice_range(tag, start, i + 2);
                    let value = str_chars("value=\"");
                    attr_value_exec(element.as_slice(), value.as_slice())
                },
            }
        },
    }
}

/// Reads `width:height:channels`.
fn parse_geometry_exec(g: &[char]) -> (r: Option<(u32, u32, u32)>)
    ensures
        r == parse_geometry(g@),
{
    let parts = split_chars(g, ':');
    if parts.len() < 3 {
        return None;
    }
    assert(parts@[0]@ == split_parts(g@, ':')[0]);
    assert(parts@[1]@ == split_parts(g@, ':')[1]);
    assert(parts@[2]@ == split_parts(g@, ':')[2]);
    match (parse_u32(parts[0].as_slice()), parse_u32(parts[1].as_slice()), parse_u32(parts[2].as_slice())) {
        (Some(a), Some(b), Some(c)) => Some((a, b, c)),
        _ => None,
    }
}

/// Reads `attachment:offset:length`.
fn parse_location_exec(l: &[char]) -> (r: Option<(usize, usize)>)
    ensures
        r == parse_location(l@),
{
    let parts = split_chars(l, ':');
    if parts.len() < 3 {
        return None;
    }
    assert(parts@[0]@ == split_parts(l@, ':')[0]);
    assert(parts@[1]@ == split_parts(l@, ':')[1]);
    assert(parts@[2]@ == split_parts(l@, ':')[2]);
    if !chars_eq_str(parts[0].as_slice(), "attachment") {
        return None;
    }
    match (parse_usize(parts[1].as_slice()), parse_usize(parts[2].as_slice())) {
        (Some(o), Some(n)) => Some((o, n)),
        _ => None,
    }
}

/// The frame format named by `v`.
fn parse_format_name_exec(v: &[char]) -> (r: Option<StandardImageFrameFormat>)
    ensures
        r == parse_format_name(v@),
{
    let t = trimmed(v);
    let t = t.as_slice();
    if chars_eq_str(t, "RAW8") {
        Some(StandardImageFrameFormat::RAW8)
    } else if chars_eq_str(t, "RAW10") {
        Some(StandardImageFrameFormat::RAW10)
    } else if chars_eq_str(t, "RAW12") {
        Some(StandardImageFrameFormat::RAW12)
    } else if chars_eq_str(t, "RAW14") {
        Some(StandardImageFrameFormat::RAW14)
    } else if chars_eq_str(t, "RAW16") {
        Some(StandardImageFrameFormat::RAW16)
    } else if chars_eq_str(t, "RGB24") {
        Some(StandardImageFrameFormat::RGB24)
    } else if chars_eq_str(t, "RGB32") {
        Some(StandardImageFrameFormat::RGB32)
    } else {
        None
    }
}

/// The frame format a sample format and channel count stand for.
fn infer_format_exec(sample_format: &[char], channels: u32) -> (r: Option<StandardImageFrameFormat>)
    ensures
        r == infer_format(sample_format@, channels),
{
    let byte_samples = chars_eq_str(sample_format, "UInt8");
    let word_samples = chars_eq_str(sample_format, "UInt16");
    if byte_samples && channels == 1 {
        Some(StandardImageFrameFormat::RAW8)
    } else if byte_samples && channels == 3 {
        Some(StandardImageFrameFormat::RGB24)
    } else if byte_samples && channels == 4 {
        Some(StandardImageFrameFormat::RGB32)
    } else if word_samples && channels == 1 {
        Some(StandardImageFrameFormat::RAW16)
    } else {
        None
    }
}

impl ImageReader for XisfImageSaver {
    open spec fn reader_formats(&self) -> Seq<StandardImageFrameFormat> {
        all_formats()
    }

    fn supported_formats(&self) -> (r: &'static [StandardImageFrameFormat]) {
        all_formats_exec()
    }

    /// Reads the frame of an XISF file.
    fn decode(&self, bytes: &[u8]) -> (r: Result<ImageFrame, VastError>)
        ensures
            match xisf_frame(bytes@) {
                Some((w, h, f, d)) => r matches Ok(fr) && fr.width == w && fr.height == h && fr.format == f
                    && fr.data@ == d,
                None => r matches Err(e) && e.error_type == VastErrorType::FileError,
            },
    {
        if bytes.len() < 16 {
            return Err(file_error(owned("invalid XISF file signature")));
        }
        let signature: [u8; 8] = [88u8, 73u8, 83u8, 70u8, 48u8, 49u8, 48u8, 48u8];
        let mut k: usize = 0;
        while k < 8
            invariant
                bytes.len() >= 16,
                k <= 8,
                signature@ == xisf_signature(),
                forall|t: int| 0 <= t < k ==> bytes@[t] == xisf_signature()[t],
            decreases 8 - k,
        {
            if bytes[k] != signature[k] {
                assert(bytes@.subrange(0, 8)[k as int] != xisf_signature()[k as int]);
                return Err(file_error(owned("invalid XISF file signature")));
            }
            k = k + 1;
        }
        assert(bytes@.subrange(0, 8) =~= xisf_signature());
        let header_len: u64 = bytes[8] as u64 + bytes[9] as u64 * 256 + bytes[10] as u64 * 65536 + bytes[11] as u64
            * 16777216;
        if header_len > (bytes.len() - 16) as u64 {
            return Err(file_error(owned("truncated XISF header")));
        }
        let header_end = 16 + header_len as usize;
        let header_bytes = slice_range(bytes, 16, header_end);
        let text = match str_from_utf8(header_bytes.as_slice()) {
            Some(t) => t,
            None => {
                return Err(file_error(owned("invalid XISF header encoding")));
            },
        };
        let header = str_chars(text);
        let (a, b) = match image_element_bounds_exec(header.as_slice()) {
            Some(ab) => ab,
            None => {
                return Err(file_error(owned("missing XISF element Image")));
            },
        };
        let tag = slice_range(header.as_slice(), a, b);
        let tag = tag.as_slice();
        let geometry = attr_value_exec(tag, str_chars("geometry=\"").as_slice());
        let sample_format = attr_value_exec(tag, str_chars("sampleFormat=\"").as_slice());
        let location = attr_value_exec(tag, str_chars("location=\"").as_slice());
        let (geometry, sample_format, location) = match (geometry, sample_format, location) {
            (Some(g), Some(s), Some(l)) => (g, s, l),
            _ => {
                return Err(file_error(owned("missing XISF attribute")));
            },
        };
        let lvfmt = property_value_exec(tag, str_chars("<Property id=\"LVFMT\"").as_slice());
        let (width, height, channels) = match parse_geometry_exec(geometry.as_slice()) {
            Some(g) => g,
            None => {
                return Err(file_error(owned("invalid XISF geometry")));
            },
        };
        let format = match lvfmt {
            Some(v) => parse_format_name_exec(v.as_slice()),
            None => infer_format_exec(sample_format.as_slice(), channels),
        };
        let format = match format {
            Some(f) => f,
            None => {
                return Err(file_error(owned("unsupported XISF frame format")));
            },
        };
        let (offset, len) = match parse_location_exec(location.as_slice()) {
            Some(l) => l,
            None => {
                return Err(file_error(owned("invalid XISF attachment location")));
            },
        };
        if offset > bytes.len() || len > bytes.len() - offset {
            return Err(file_error(owned("truncated XISF data block")));
        }
        let end = if is_wide(format) {
            offset + len - len % 2
        } else {
            offset + len
        };
        let data = slice_range(bytes, offset, end);
        proof {
            let block = bytes@.subrange(offset as int, offset + len);
            assert(data@ =~= block_frame_data(block, format));
        }
        Ok(ImageFrame { width, height, format, data })
    }
}

} // verus!
