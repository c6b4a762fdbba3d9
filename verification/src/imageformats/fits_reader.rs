//! Reading FITS files written by [`FitsImageSaver`](crate::imageformats::fits::FitsImageSaver).
use vstd::prelude::*;
use vstd::utf8::{
    decode_utf8, is_char_boundary, is_char_boundary_iff_not_is_continuation_byte,
    is_continuation_byte, valid_utf8, valid_utf8_split,
};

use crate::base::errors::{VastError, VastErrorType};
use crate::imageformats::fits::{camera_data, read_fits_data, FitsImageSaver};
use crate::imageformats::types::{expected_data_len, file_error, frame_len, ImageFrame};
use crate::text::{
    chars_eq_str, first_index_of, find_char, owned, parse_i64, parse_i64_spec, parse_u32,
    parse_u32_spec, push_str, slice_range, str_chars, str_from_utf8, string_from_chars, trim,
    trim_char, trim_char_bounds, trimmed,
};
use crate::types::imageformats::{spec_format_name, StandardImageFrameFormat};

verus! {

/// One parsed header card: keyword and value text.
#[derive(Debug, Clone)]
pub struct FitsHeaderEntry {
    /// Keyword, without surrounding whitespace.
    pub key: String,
    /// Value text, without quotes and surrounding blanks.
    pub value: String,
}

/// The 80-byte card at position `k`.
pub open spec fn card_chunk(bytes: Seq<u8>, k: nat) -> Seq<u8> {
    bytes.subrange((80 * k) as int, (80 * k + 80) as int)
}

/// The value text of a card: what follows the first `=` up to the first `/`,
/// trimmed of whitespace, spaces, double quotes and single quotes in that
/// order; `None` when the card has no `=`.
pub open spec fn parse_card_value(card: Seq<char>) -> Option<Seq<char>> {
    match first_index_of(card, '=') {
        None => None,
        Some(e) => {
            let rest = card.subrange(e + 1, card.len() as int);
            let v = match first_index_of(rest, '/') {
                Some(s) => rest.subrange(0, s),
                None => rest,
            };
            Some(trim_char(trim_char(trim_char(trim(v), ' '), '"'), '\''))
        },
    }
}

/// Where reading the header cards ends.
pub ghost enum ScanView {
    /// No `END` card before the end of the bytes.
    Missing,
    /// A card is not valid UTF-8.
    BadUtf8,
    /// Byte 8 of a card falls inside a character (where slicing the keyword
    /// panics).
    Panics,
    /// The data offset after `END` and the parsed `(keyword, value)` entries,
    /// in file order.
    End(nat, Seq<(Seq<char>, Seq<char>)>),
}

/// `n` rounded up to a multiple of the FITS block size.
pub open spec fn block_ceil(n: nat) -> nat {
    (((n + 2879) / 2880) * 2880) as nat
}

/// `es` put in front of the entries of a scan.
pub open spec fn prepend_entries(es: Seq<(Seq<char>, Seq<char>)>, o: ScanView) -> ScanView {
    match o {
        ScanView::End(off, r) => ScanView::End(off, es + r),
        _ => o,
    }
}

/// Reading the header cards from card `k` on.
pub open spec fn scan_cards(bytes: Seq<u8>, k: nat) -> ScanView
    decreases bytes.len() - 80 * k,
{
    if 80 * k + 80 > bytes.len() {
        ScanView::Missing
    } else {
        let c = card_chunk(bytes, k);
        if !valid_utf8(c) {
            ScanView::BadUtf8
        } else if !is_char_boundary(c, 8) {
            ScanView::Panics
        } else {
            let key = trim(decode_utf8(c.subrange(0, 8)));
            if key == "END"@ {
                ScanView::End(block_ceil(80 * k + 80), Seq::empty())
            } else {
                let entry = match parse_card_value(decode_utf8(c)) {
                    Some(v) => seq![(key, v)],
                    None => Seq::empty(),
                };
                prepend_entries(entry, scan_cards(bytes, k + 1))
            }
        }
    }
}

/// The value of the last entry with keyword `key`.
pub open spec fn lookup(es: Seq<(Seq<char>, Seq<char>)>, key: Seq<char>) -> Option<Seq<char>>
    decreases es.len(),
{
    if es.len() == 0 {
        None
    } else if es.last().0 == key {
        Some(es.last().1)
    } else {
        lookup(es.drop_last(), key)
    }
}

/// A required `u32` header; `None` when missing or not a `u32`.
pub open spec fn header_u32_spec(es: Seq<(Seq<char>, Seq<char>)>, key: Seq<char>) -> Option<u32> {
    match lookup(es, key) {
        Some(v) => parse_u32_spec(v),
        None => None,
    }
}

/// An optional `u32` header; `None` when present but not a `u32`.
pub open spec fn header_optional_u32_spec(es: Seq<(Seq<char>, Seq<char>)>, key: Seq<char>) -> Option<Option<u32>> {
    match lookup(es, key) {
        Some(v) => match parse_u32_spec(v) {
            Some(n) => Some(Some(n)),
            None => None,
        },
        None => Some(None),
    }
}

/// A required `i64` header; `None` when missing or not an `i64`.
pub open spec fn header_i64_spec(es: Seq<(Seq<char>, Seq<char>)>, key: Seq<char>) -> Option<i64> {
    match lookup(es, key) {
        Some(v) => parse_i64_spec(v),
        None => None,
    }
}

/// The format whose name is `trim(v)`.
pub open spec fn format_named(v: Seq<char>) -> Option<StandardImageFrameFormat> {
    let t = trim(v);
    if t == "RAW8"@ {
        Some(StandardImageFrameFormat::RAW8)
    } else if t == "RAW10"@ {
        Some(StandardImageFrameFormat::RAW10)
    } else if t == "RAW12"@ {
        Some(StandardImageFrameFormat::RAW12)
    } else if t == "RAW14"@ {
        Some(StandardImageFrameFormat::RAW14)
    } else if t == "RAW16"@ {
        Some(StandardImageFrameFormat::RAW16)
    } else if t == "RGB24"@ {
        Some(StandardImageFrameFormat::RGB24)
    } else if t == "RGB32"@ {
        Some(StandardImageFrameFormat::RGB32)
    } else {
        None
    }
}

/// The format a file without `LVFMT` describes by its layout.
pub open spec fn layout_format(
    naxis: u32,
    naxis1: u32,
    naxis3: Option<u32>,
    bitpix: i64,
    bzero_is_offset: bool,
) -> Option<StandardImageFrameFormat> {
    if naxis == 2 && naxis3 is None && bitpix == 8 {
        Some(StandardImageFrameFormat::RAW8)
    } else if naxis == 2 && naxis3 is None && bitpix == 16 && bzero_is_offset {
        Some(StandardImageFrameFormat::RAW16)
    } else if naxis == 3 && naxis1 == 3 && naxis3 is Some && bitpix == 8 {
        Some(StandardImageFrameFormat::RGB24)
    } else if naxis == 3 && naxis1 == 4 && naxis3 is Some && bitpix == 8 {
        Some(StandardImageFrameFormat::RGB32)
    } else {
        None
    }
}

/// The frame format a header describes.
pub open spec fn header_format(
    es: Seq<(Seq<char>, Seq<char>)>,
    naxis: u32,
    naxis1: u32,
    naxis3: Option<u32>,
    bitpix: i64,
    bzero_is_offset: bool,
) -> Option<StandardImageFrameFormat> {
    match lookup(es, "LVFMT"@) {
        Some(v) => format_named(v),
        None => layout_format(naxis, naxis1, naxis3, bitpix, bzero_is_offset),
    }
}

/// Frame `(width, height)` from the axes, checked against the format.
pub open spec fn dims_from_axes(
    naxis: u32,
    naxis1: u32,
    naxis2: u32,
    naxis3: Option<u32>,
    f: StandardImageFrameFormat,
) -> Option<(u32, u32)> {
    match f {
        StandardImageFrameFormat::RGB24 => if naxis == 3 && naxis1 == 3 && naxis3 is Some {
            Some((naxis2, naxis3->0))
        } else {
            None
        },
        StandardImageFrameFormat::RGB32 => if naxis == 3 && naxis1 == 4 && naxis3 is Some {
            Some((naxis2, naxis3->0))
        } else {
            None
        },
        _ => if naxis == 2 {
            Some((naxis1, naxis2))
        } else {
            None
        },
    }
}

/// The frame a FITS file holds as `(width, height, format, data)`, or `None`
/// where the reader reports an error. `bzero_is_offset` says whether the
/// `BZERO` header reads as the real number 32768.
pub open spec fn fits_frame(bytes: Seq<u8>, bzero_is_offset: bool) -> Option<
    (u32, u32, StandardImageFrameFormat, Seq<u8>),
> {
    match scan_cards(bytes, 0) {
        ScanView::End(off, es) => {
            match (
                header_u32_spec(es, "NAXIS"@),
                header_u32_spec(es, "NAXIS1"@),
                header_u32_spec(es, "NAXIS2"@),
                header_optional_u32_spec(es, "NAXIS3"@),
                header_i64_spec(es, "BITPIX"@),
            ) {
                (Some(naxis), Some(naxis1), Some(naxis2), Some(naxis3), Some(bitpix)) => {
                    match header_format(es, naxis, naxis1, naxis3, bitpix, bzero_is_offset) {
                        Some(f) => match dims_from_axes(naxis, naxis1, naxis2, naxis3, f) {
                            Some((w, h)) => {
                                let end = off + frame_len(w, h, f);
                                if end <= bytes.len() {
                                    Some((w, h, f, camera_data(bytes.subrange(off as int, end), f)))
                                } else {
                                    None
                                }
                            },
                            None => None,
                        },
                        None => None,
                    }
                },
                _ => None,
            }
        },
        _ => None,
    }
}

/// The view of parsed header entries.
pub open spec fn entries_view(es: Seq<FitsHeaderEntry>) -> Seq<(Seq<char>, Seq<char>)> {
    es.map_values(|e: FitsHeaderEntry| (e.key@, e.value@))
}

pub(crate) proof fn lemma_first_index(s: Seq<char>, c: char, i: int)
    requires
        0 <= i < s.len(),
        s[i] == c,
        forall|j: int| 0 <= j < i ==> s[j] != c,
    ensures
        first_index_of(s, c) == Some(i),
{
    let k = choose|k: int| 0 <= k < s.len() && s[k] == c && forall|j: int| 0 <= j < k ==> s[j] != c;
    assert(0 <= i < s.len() && s[i] == c && forall|j: int| 0 <= j < i ==> s[j] != c);
    if k < i {
        assert(s[k] != c);
    }
    if k > i {
        assert(s[i] != c);
    }
}

/// Finds `c` in `s` as [`first_index_of`] does.
fn first_index(s: &[char], c: char) -> (r: Option<usize>)
    ensures
        match r {
            Some(i) => i < s.len() && first_index_of(s@, c) == Some(i as int),
            None => first_index_of(s@, c) is None,
        },
{
    let r = find_char(s, c, 0);
    match r {
        Some(i) => {
            proof {
                lemma_first_index(s@, c, i as int);
            }
        },
        None => {},
    }
    r
}

/// `trim_char(s, c)` as a new vector.
fn trimmed_char(s: &[char], c: char) -> (v: Vec<char>)
    ensures
        v@ == trim_char(s@, c),
{
    let (a, b) = trim_char_bounds(s, c);
    slice_range(s, a, b)
}

/// The value text of a card.
pub fn card_value(card: &[char]) -> (r: Option<Vec<char>>)
    ensures
        match r {
            Some(v) => parse_card_value(card@) == Some(v@),
            None => parse_card_value(card@) is None,
        },
{
    match first_index(card, '=') {
        None => None,
        Some(e) => {
            let rest = slice_range(card, e + 1, card.len());
            let v = match first_index(rest.as_slice(), '/') {
                Some(s) => slice_range(rest.as_slice(), 0, s),
                None => rest,
            };
            let t = trimmed(v.as_slice());
            let t = trimmed_char(t.as_slice(), ' ');
            let t = trimmed_char(t.as_slice(), '"');
            let t = trimmed_char(t.as_slice(), '\'');
            Some(t)
        },
    }
}

/// Reads the header cards up to `END`: the entries in file order and the
/// offset of the data that follows.
pub fn parse_header_cards(bytes: &[u8]) -> (r: Result<(Vec<FitsHeaderEntry>, usize), VastError>)
    requires
        !(scan_cards(bytes@, 0) is Panics),
        bytes.len() + 2880 <= usize::MAX,
    ensures
        match scan_cards(bytes@, 0) {
            ScanView::End(off, es) => r is Ok && r->Ok_0.1 == off && entries_view(r->Ok_0.0@) == es,
            _ => r is Err && r->Err_0.error_type == VastErrorType::FileError,
        },
{
    let mut entries: Vec<FitsHeaderEntry> = Vec::new();
    let mut offset: usize = 0;
    let ghost mut k: nat = 0;
    proof {
        assert(entries_view(entries@) =~= Seq::<(Seq<char>, Seq<char>)>::empty());
        match scan_cards(bytes@, 0) {
            ScanView::End(off, es) => {
                assert(Seq::<(Seq<char>, Seq<char>)>::empty() + es =~= es);
            },
            _ => {},
        }
    }
    while offset + 80 <= bytes.len()
        invariant
            offset == 80 * k,
            offset <= bytes.len(),
            bytes.len() + 2880 <= usize::MAX,
            scan_cards(bytes@, 0) == prepend_entries(entries_view(entries@), scan_cards(bytes@, k)),
            !(scan_cards(bytes@, 0) is Panics),
        decreases bytes.len() - offset,
    {
        let chunk = slice_range(bytes, offset, offset + 80);
        assert(chunk@ == card_chunk(bytes@, k));
        let card = match str_from_utf8(chunk.as_slice()) {
            Some(card) => card,
            None => {
                return Err(file_error(owned("invalid FITS header encoding")));
            },
        };
        if 0x80u8 <= chunk[8] && chunk[8] <= 0xbfu8 {
            proof {
                is_char_boundary_iff_not_is_continuation_byte(chunk@, 8);
                assert(scan_cards(bytes@, k) is Panics);
            }
            return Err(file_error(owned("invalid FITS header keyword boundary")));
        }
        proof {
            is_char_boundary_iff_not_is_continuation_byte(chunk@, 8);
            valid_utf8_split(chunk@, 8);
        }
        let head = slice_range(chunk.as_slice(), 0, 8);
        assert(head@ == chunk@.subrange(0, 8));
        let key_str = match str_from_utf8(head.as_slice()) {
            Some(s) => s,
            None => {
                return Err(file_error(owned("invalid FITS header encoding")));
            },
        };
        let key_chars = str_chars(key_str);
        let key = trimmed(key_chars.as_slice());
        offset = offset + 80;
        if chars_eq_str(key.as_slice(), "END") {
            let header_end = (offset + 2879) / 2880 * 2880;
            proof {
                assert(entries_view(entries@) + Seq::<(Seq<char>, Seq<char>)>::empty() =~= entries_view(
                    entries@,
                ));
            }
            return Ok((entries, header_end));
        }
        let card_chars = str_chars(card);
        let ghost before = entries_view(entries@);
        match card_value(card_chars.as_slice()) {
            Some(v) => {
                let entry = FitsHeaderEntry {
                    key: string_from_chars(key.as_slice()),
                    value: string_from_chars(v.as_slice()),
                };
                entries.push(entry);
                proof {
                    assert(entries_view(entries@) =~= before + seq![(key@, v@)]);
                    match scan_cards(bytes@, k + 1) {
                        ScanView::End(off, es) => {
                            assert(before + (seq![(key@, v@)] + es) =~= (before + seq![(key@, v@)]) + es);
                        },
                        _ => {},
                    }
                }
            },
            None => {
                proof {
                    match scan_cards(bytes@, k + 1) {
                        ScanView::End(off, es) => {
                            assert(Seq::<(Seq<char>, Seq<char>)>::empty() + es =~= es);
                        },
                        _ => {},
                    }
                }
            },
        }
        proof {
            k = k + 1;
        }
    }
    Err(file_error(owned("missing FITS END header")))
}

/// Whether reading the header cards of `bytes` stops at a card whose
/// keyword field ends inside a character (where slicing it panics).
pub fn header_scan_panics(bytes: &[u8]) -> (r: bool)
    ensures
        r == (scan_cards(bytes@, 0) is Panics),
{
    let mut offset: usize = 0;
    let ghost mut k: nat = 0;
    while offset <= bytes.len() && 80 <= bytes.len() - offset
        invariant
            offset == 80 * k,
            (scan_cards(bytes@, 0) is Panics) == (scan_cards(bytes@, k) is Panics),
        decreases bytes.len() - offset,
    {
        let chunk = slice_range(bytes, offset, offset + 80);
        assert(chunk@ == card_chunk(bytes@, k));
        if str_from_utf8(chunk.as_slice()).is_none() {
            return false;
        }
        if 0x80u8 <= chunk[8] && chunk[8] <= 0xbfu8 {
            proof {
                is_char_boundary_iff_not_is_continuation_byte(chunk@, 8);
            }
            return true;
        }
        proof {
            is_char_boundary_iff_not_is_continuation_byte(chunk@, 8);
            valid_utf8_split(chunk@, 8);
        }
        let head = slice_range(chunk.as_slice(), 0, 8);
        assert(head@ == chunk@.subrange(0, 8));
        let key_str = match str_from_utf8(head.as_slice()) {
            Some(s) => s,
            None => {
                return false;
            },
        };
        let key_chars = str_chars(key_str);
        let key = trimmed(key_chars.as_slice());
        if chars_eq_str(key.as_slice(), "END") {
            return false;
        }
        offset = offset + 80;
        proof {
            k = k + 1;
        }
    }
    false
}

/// The value of the last entry with keyword `key`.
pub fn lookup_header(entries: &Vec<FitsHeaderEntry>, key: &str) -> (r: Option<Vec<char>>)
    ensures
        match r {
            Some(v) => lookup(entries_view(entries@), key@) == Some(v@),
            None => lookup(entries_view(entries@), key@) is None,
        },
{
    let mut i: usize = entries.len();
    assert(entries@.subrange(0, i as int) =~= entries@);
    while i > 0
        invariant
            i <= entries.len(),
            lookup(entries_view(entries@), key@) == lookup(entries_view(entries@.subrange(0, i as int)), key@),
        decreases i,
    {
        let e = &entries[i - 1];
        let ghost pre = entries_view(entries@.subrange(0, i as int));
        assert(pre.last() == (e.key@, e.value@));
        assert(pre.drop_last() =~= entries_view(entries@.subrange(0, i - 1)));
        let k = str_chars(e.key.as_str());
        if chars_eq_str(k.as_slice(), key) {
            return Some(str_chars(e.value.as_str()));
        }
        i = i - 1;
    }
    assert(entries_view(entries@.subrange(0, 0)) =~= Seq::<(Seq<char>, Seq<char>)>::empty());
    None
}

fn missing_header(key: &str) -> (e: VastError)
    ensures
        e.error_type == VastErrorType::FileError,
{
    let mut m = owned("missing FITS header ");
    push_str(&mut m, key);
    file_error(m)
}

fn invalid_header(key: &str) -> (e: VastError)
    ensures
        e.error_type == VastErrorType::FileError,
{
    let mut m = owned("invalid FITS header ");
    push_str(&mut m, key);
    file_error(m)
}

/// A required `u32` header.
pub fn header_u32(entries: &Vec<FitsHeaderEntry>, key: &str) -> (r: Result<u32, VastError>)
    ensures
        match header_u32_spec(entries_view(entries@), key@) {
            Some(n) => r == Ok::<u32, VastError>(n),
            None => r is Err && r->Err_0.error_type == VastErrorType::FileError,
        },
{
    match lookup_header(entries, key) {
        None => Err(missing_header(key)),
        Some(v) => match parse_u32(v.as_slice()) {
            Some(n) => Ok(n),
            None => Err(invalid_header(key)),
        },
    }
}

/// An optional `u32` header.
pub fn header_optional_u32(entries: &Vec<FitsHeaderEntry>, key: &str) -> (r: Result<Option<u32>, VastError>)
    ensures
        match header_optional_u32_spec(entries_view(entries@), key@) {
            Some(n) => r == Ok::<Option<u32>, VastError>(n),
            None => r is Err && r->Err_0.error_type == VastErrorType::FileError,
        },
{
    match lookup_header(entries, key) {
        None => Ok(None),
        Some(v) => match parse_u32(v.as_slice()) {
            Some(n) => Ok(Some(n)),
            None => Err(invalid_header(key)),
        },
    }
}

/// A required `i64` header.
pub fn header_i64(entries: &Vec<FitsHeaderEntry>, key: &str) -> (r: Result<i64, VastError>)
    ensures
        match header_i64_spec(entries_view(entries@), key@) {
            Some(n) => r == Ok::<i64, VastError>(n),
            None => r is Err && r->Err_0.error_type == VastErrorType::FileError,
        },
{
    match lookup_header(entries, key) {
        None => Err(missing_header(key)),
        Some(v) => match parse_i64(v.as_slice()) {
            Some(n) => Ok(n),
            None => Err(invalid_header(key)),
        },
    }
}

/// The format named by an `LVFMT` value.
pub fn parse_frame_format(value: &[char]) -> (r: Result<StandardImageFrameFormat, VastError>)
    ensures
        match format_named(value@) {
            Some(f) => r == Ok::<StandardImageFrameFormat, VastError>(f),
            None => r is Err && r->Err_0.error_type == VastErrorType::FileError,
        },
{
    let t = trimmed(value);
    let t = t.as_slice();
    if chars_eq_str(t, "RAW8") {
        Ok(StandardImageFrameFormat::RAW8)
    } else if chars_eq_str(t, "RAW10") {
        Ok(StandardImageFrameFormat::RAW10)
    } else if chars_eq_str(t, "RAW12") {
        Ok(StandardImageFrameFormat::RAW12)
    } else if chars_eq_str(t, "RAW14") {
        Ok(StandardImageFrameFormat::RAW14)
    } else if chars_eq_str(t, "RAW16") {
        Ok(StandardImageFrameFormat::RAW16)
    } else if chars_eq_str(t, "RGB24") {
        Ok(StandardImageFrameFormat::RGB24)
    } else if chars_eq_str(t, "RGB32") {
        Ok(StandardImageFrameFormat::RGB32)
    } else {
        Err(file_error(owned("unsupported FITS LVFMT value")))
    }
}

/// The frame format a header describes.
pub fn frame_format_from_headers(
    entries: &Vec<FitsHeaderEntry>,
    naxis: u32,
    naxis1: u32,
    naxis3: Option<u32>,
    bitpix: i64,
    bzero_is_offset: bool,
) -> (r: Result<StandardImageFrameFormat, VastError>)
    ensures
        match header_format(entries_view(entries@), naxis, naxis1, naxis3, bitpix, bzero_is_offset) {
            Some(f) => r == Ok::<StandardImageFrameFormat, VastError>(f),
            None => r is Err && r->Err_0.error_type == VastErrorType::FileError,
        },
{
    if let Some(v) = lookup_header(entries, "LVFMT") {
        return parse_frame_format(v.as_slice());
    }
    let no_axis3 = naxis3.is_none();
    if naxis == 2 && no_axis3 && bitpix == 8 {
        Ok(StandardImageFrameFormat::RAW8)
    } else if naxis == 2 && no_axis3 && bitpix == 16 && bzero_is_offset {
        Ok(StandardImageFrameFormat::RAW16)
    } else if naxis == 3 && naxis1 == 3 && !no_axis3 && bitpix == 8 {
        Ok(StandardImageFrameFormat::RGB24)
    } else if naxis == 3 && naxis1 == 4 && !no_axis3 && bitpix == 8 {
        Ok(StandardImageFrameFormat::RGB32)
    } else {
        Err(file_error(owned("unsupported FITS layout")))
    }
}

/// Frame `(width, height)` from the axes.
pub fn image_dimensions_from_axes(
    naxis: u32,
    naxis1: u32,
    naxis2: u32,
    naxis3: Option<u32>,
    format: StandardImageFrameFormat,
) -> (r: Result<(u32, u32), VastError>)
    ensures
        match dims_from_axes(naxis, naxis1, naxis2, naxis3, format) {
            Some(d) => r == Ok::<(u32, u32), VastError>(d),
            None => r is Err && r->Err_0.error_type == VastErrorType::FileError,
        },
{
    match format {
        StandardImageFrameFormat::RGB24 => {
            if naxis != 3 || naxis1 != 3 {
                return Err(file_error(owned("invalid FITS axis layout for RGB24 frame")));
            }
            match naxis3 {
                Some(n3) => Ok((naxis2, n3)),
                None => Err(missing_header("NAXIS3")),
            }
        },
        StandardImageFrameFormat::RGB32 => {
            if naxis != 3 || naxis1 != 4 {
                return Err(file_error(owned("invalid FITS axis layout for RGB32 frame")));
            }
            match naxis3 {
                Some(n3) => Ok((naxis2, n3)),
                None => Err(missing_header("NAXIS3")),
            }
        },
        _ => {
            if naxis != 2 {
                return Err(file_error(owned("invalid FITS axis count for monochrome frame")));
            }
            Ok((naxis1, naxis2))
        },
    }
}

impl FitsImageSaver {
    /// Decodes the frame in the bytes of a FITS file. `bzero_is_offset`
    /// tells whether the file's `BZERO` header reads as the real number
    /// 32768; it matters only for files without an `LVFMT` header.
    pub fn decode(&self, bytes: &[u8], bzero_is_offset: bool) -> (r: Result<ImageFrame, VastError>)
        requires
            !(scan_cards(bytes@, 0) is Panics),
            bytes.len() + 2880 <= usize::MAX,
        ensures
            match fits_frame(bytes@, bzero_is_offset) {
                Some((w, h, f, d)) => r matches Ok(frame) && frame.width == w && frame.height == h
                    && frame.format == f && frame.data@ == d,
                None => r is Err && r->Err_0.error_type == VastErrorType::FileError,
            },
    {
        let (entries, data_offset) = parse_header_cards(bytes)?;
        let naxis = header_u32(&entries, "NAXIS")?;
        let naxis1 = header_u32(&entries, "NAXIS1")?;
        let naxis2 = header_u32(&entries, "NAXIS2")?;
        let naxis3 = header_optional_u32(&entries, "NAXIS3")?;
        let bitpix = header_i64(&entries, "BITPIX")?;
        let format = frame_format_from_headers(&entries, naxis, naxis1, naxis3, bitpix, bzero_is_offset)?;
        let (width, height) = image_dimensions_from_axes(naxis, naxis1, naxis2, naxis3, format)?;
        let data_len = match expected_data_len(width, height, format) {
            Some(n) => n,
            None => {
                return Err(file_error(owned("FITS image dimensions overflow")));
            },
        };
        let data_end = match data_offset.checked_add(data_len) {
            Some(e) => e,
            None => {
                return Err(file_error(owned("FITS data length overflow")));
            },
        };
        if bytes.len() < data_end {
            return Err(file_error(owned("invalid FITS payload length")));
        }
        let payload = slice_range(bytes, data_offset, data_end);
        let data = read_fits_data(payload.as_slice(), format);
        Ok(ImageFrame { width, height, format, data })
    }
}

} // verus!
