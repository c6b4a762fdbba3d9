//! Frame geometry checks, per-channel samples and histogram preview options.
use vstd::prelude::*;

use crate::base::errors::{VastError, VastErrorType, VastResult};
use crate::imageformats::types::{expected_data_len, file_error, frame_len};
use crate::text::owned;
use crate::types::imageformats::{spec_bytes_per_pixel, spec_format_name, ImageFrame, StandardImageFrameFormat};
use crate::text::{all_digits, digits_value, parse_unsigned};

verus! {

/// Output settings for a rendered histogram preview.
#[derive(Debug, Clone, Copy, PartialEq, Eq, Structural)]
pub struct HistogramRenderOptions {
    /// Output image width in pixels.
    pub width: u32,
    /// Output image height in pixels.
    pub height: u32,
    /// Use logarithmic bar scaling when true.
    pub logarithmic: bool,
}

impl Default for HistogramRenderOptions {
    /// A compact logarithmic preview: 256 x 128 pixels.
    fn default() -> (r: Self)
        ensures
            r.width == 256,
            r.height == 128,
            r.logarithmic,
    {
        HistogramRenderOptions { width: 256, height: 128, logarithmic: true }
    }
}

/// Checks that a frame's byte length matches its dimensions and format.
pub fn validate_frame_len(frame: &ImageFrame) -> (r: VastResult<()>)
    ensures
        r is Ok <==> frame.data@.len() == frame_len(frame.width, frame.height, frame.format),
        r matches Err(e) ==> e.error_type == VastErrorType::FileError,
{
    let len = frame.data.len();
    let expected = match expected_data_len(frame.width, frame.height, frame.format) {
        Some(n) => n,
        None => {
            return Err(file_error(owned("image dimensions overflow")));
        },
    };
    if len != expected {
        return Err(file_error(owned("invalid frame data length")));
    }
    Ok(())
}

/// Logical channel count of a format.
pub open spec fn channels_of(format: StandardImageFrameFormat) -> nat {
    match format {
        StandardImageFrameFormat::RGB24 => 3,
        StandardImageFrameFormat::RGB32 => 4,
        _ => 1,
    }
}

/// Logical channel count of a format.
pub fn channel_count(format: StandardImageFrameFormat) -> (r: usize)
    ensures
        r == channels_of(format),
{
    match format {
        StandardImageFrameFormat::RGB24 => 3,
        StandardImageFrameFormat::RGB32 => 4,
        _ => 1,
    }
}

/// Largest sample value a format can hold.
pub open spec fn max_sample(format: StandardImageFrameFormat) -> nat {
    match format {
        StandardImageFrameFormat::RAW10 => 1023,
        StandardImageFrameFormat::RAW12 => 4095,
        StandardImageFrameFormat::RAW14 => 16383,
        StandardImageFrameFormat::RAW16 => 65535,
        _ => 255,
    }
}

/// Largest sample value a format can hold.
pub fn format_max_value(format: StandardImageFrameFormat) -> (r: u16)
    ensures
        r == max_sample(format),
{
    match format {
        StandardImageFrameFormat::RAW10 => 1023,
        StandardImageFrameFormat::RAW12 => 4095,
        StandardImageFrameFormat::RAW14 => 16383,
        StandardImageFrameFormat::RAW16 => 65535,
        _ => 255,
    }
}

/// Bytes taken one per sample.
pub open spec fn widened(data: Seq<u8>) -> Seq<u16> {
    Seq::new(data.len(), |i: int| data[i] as u16)
}

/// Byte pairs taken as native-endian (little-endian) 16-bit samples; a
/// trailing odd byte is dropped.
pub open spec fn paired(data: Seq<u8>) -> Seq<u16> {
    Seq::new(data.len() / 2, |i: int| (data[2 * i] + 256 * data[2 * i + 1]) as u16)
}

/// The samples of each channel: one channel for the raw formats, and for
/// the color formats one plane of `ppc` bytes per channel, planes in order.
pub open spec fn channel_samples(data: Seq<u8>, ppc: int, format: StandardImageFrameFormat) -> Seq<Seq<u16>> {
    match format {
        StandardImageFrameFormat::RAW8 => seq![widened(data)],
        StandardImageFrameFormat::RGB24 => Seq::new(3, |c: int| widened(data.subrange(c * ppc, (c + 1) * ppc))),
        StandardImageFrameFormat::RGB32 => Seq::new(4, |c: int| widened(data.subrange(c * ppc, (c + 1) * ppc))),
        _ => seq![paired(data)],
    }
}

fn widen_range(data: &[u8], start: usize, end: usize) -> (r: Vec<u16>)
    requires
        start <= end <= data.len(),
    ensures
        r@ == widened(data@.subrange(start as int, end as int)),
{
    let mut r: Vec<u16> = Vec::new();
    let mut i: usize = start;
    while i < end
        invariant
            start <= i <= end <= data.len(),
            r@.len() == i - start,
            forall|j: int| 0 <= j < i - start ==> #[trigger] r@[j] == data@[start + j] as u16,
        decreases end - i,
    {
        r.push(data[i] as u16);
        i = i + 1;
    }
    assert(r@ =~= widened(data@.subrange(start as int, end as int)));
    r
}

fn pair_samples(data: &[u8]) -> (r: Vec<u16>)
    ensures
        r@ == paired(data@),
{
    let mut r: Vec<u16> = Vec::new();
    let mut i: usize = 0;
    while i + 1 < data.len()
        invariant
            i % 2 == 0,
            i <= data.len(),
            r@.len() == i / 2,
            forall|j: int| 0 <= j < i / 2 ==> #[trigger] r@[j] == (data@[2 * j] + 256 * data@[2 * j + 1]) as u16,
        decreases data.len() - i,
    {
        let lo = data[i] as u16;
        let hi = data[i + 1] as u16;
        r.push(lo + 256 * hi);
        i = i + 2;
    }
    assert(r@ =~= paired(data@));
    r
}

/// The samples of each channel of a frame (see [`channel_samples`]); an
/// error when the pixel count per channel does not fit in `usize`.
pub fn planar_channel_samples(frame: &ImageFrame) -> (r: VastResult<Vec<Vec<u16>>>)
    requires
        frame.width * frame.height <= usize::MAX ==> (frame.format == StandardImageFrameFormat::RGB24
            ==> frame.data@.len() >= 3 * (frame.width * frame.height)),
        frame.width * frame.height <= usize::MAX ==> (frame.format == StandardImageFrameFormat::RGB32
            ==> frame.data@.len() >= 4 * (frame.width * frame.height)),
    ensures
        frame.width * frame.height > usize::MAX ==> (r matches Err(e) && e.error_type == VastErrorType::FileError),
        frame.width * frame.height <= usize::MAX ==> (r matches Ok(v) && {
            let s = channel_samples(frame.data@, frame.width * frame.height, frame.format);
            &&& v@.len() == s.len()
            &&& forall|c: int| 0 <= c < s.len() ==> (#[trigger] v@[c])@ == s[c]
        }),
{
    let ppc: usize = match (frame.width as usize).checked_mul(frame.height as usize) {
        Some(n) => n,
        None => {
            return Err(file_error(owned("image dimensions overflow")));
        },
    };
    let data = frame.data.as_slice();
    let ghost s = channel_samples(frame.data@, frame.width * frame.height, frame.format);
    match frame.format {
        StandardImageFrameFormat::RAW8 => {
            let c = widen_range(data, 0, data.len());
            assert(data@.subrange(0, data@.len() as int) =~= data@);
            let mut v: Vec<Vec<u16>> = Vec::new();
            v.push(c);
            Ok(v)
        },
        StandardImageFrameFormat::RGB24 | StandardImageFrameFormat::RGB32 => {
            let n: usize = if frame.format == StandardImageFrameFormat::RGB24 {
                3
            } else {
                4
            };
            assert(n == s.len());
            let dl: usize = data.len();
            assert(n * ppc <= dl);
            let mut v: Vec<Vec<u16>> = Vec::new();
            let mut c: usize = 0;
            while c < n
                invariant
                    n == s.len(),
                    n * ppc <= dl,
                    dl == data@.len(),
                    c <= n,
                    v@.len() == c,
                    ppc == frame.width * frame.height,
                    s == channel_samples(data@, ppc as int, frame.format),
                    frame.format == StandardImageFrameFormat::RGB24 || frame.format == StandardImageFrameFormat::RGB32,
                    forall|k: int| 0 <= k < c ==> (#[trigger] v@[k])@ == s[k],
                decreases n - c,
            {
                assert((c + 1) * ppc <= n * ppc) by (nonlinear_arith)
                    requires
                        c + 1 <= n,
                ;
                assert(c * ppc + ppc == (c + 1) * ppc) by (nonlinear_arith);
                assert(c * ppc <= (c + 1) * ppc) by (nonlinear_arith);
                let start = c * ppc;
                let plane = widen_range(data, start, start + ppc);
                v.push(plane);
                c = c + 1;
            }
            Ok(v)
        },
        _ => {
            let c = pair_samples(data);
            let mut v: Vec<Vec<u16>> = Vec::new();
            v.push(c);
            Ok(v)
        },
    }
}

/// Every how many samples of a channel a histogram counts one: each sample
/// up to 500 000 pixels per channel, then one in `ppc / 500 000`.
pub open spec fn histogram_stride(ppc: nat) -> nat {
    if ppc > 500_000 {
        ppc / 500_000
    } else {
        1
    }
}

/// Every how many samples of a channel a histogram counts one.
pub fn histogram_sample_stride(pixels_per_channel: usize) -> (r: usize)
    ensures
        r == histogram_stride(pixels_per_channel as nat),
        r >= 1,
{
    if pixels_per_channel > 500_000 {
        pixels_per_channel / 500_000
    } else {
        1
    }
}

/// Sum of bin counts.
pub open spec fn count_sum(s: Seq<u32>) -> nat
    decreases s.len(),
{
    if s.len() == 0 {
        0
    } else {
        count_sum(s.drop_last()) + s.last() as nat
    }
}

/// Running totals of bin counts, each capped at `u32::MAX`.
pub open spec fn running_totals(s: Seq<u32>) -> Seq<u32> {
    Seq::new(s.len(), |i: int| if count_sum(s.take(i + 1)) > u32::MAX {
        u32::MAX
    } else {
        count_sum(s.take(i + 1)) as u32
    })
}

/// Running totals of bin counts, saturating at `u32::MAX`.
pub fn cumulative_counts(frequencies: &[u32]) -> (r: Vec<u32>)
    ensures
        r@ == running_totals(frequencies@),
{
    let mut r: Vec<u32> = Vec::new();
    let mut acc: u32 = 0;
    let mut i: usize = 0;
    while i < frequencies.len()
        invariant
            i <= frequencies.len(),
            r@.len() == i,
            acc == (if count_sum(frequencies@.take(i as int)) > u32::MAX {
                u32::MAX as int
            } else {
                count_sum(frequencies@.take(i as int)) as int
            }),
            forall|j: int| 0 <= j < i ==> #[trigger] r@[j] == running_totals(frequencies@)[j],
        decreases frequencies.len() - i,
    {
        assert(frequencies@.take(i + 1).drop_last() =~= frequencies@.take(i as int));
        acc = acc.saturating_add(frequencies[i]);
        r.push(acc);
        i = i + 1;
    }
    assert(r@ =~= running_totals(frequencies@));
    r
}

/// Whether a blob's bounding box comes within `margin` pixels of the frame
/// border.
pub open spec fn near_border(min_x: u32, min_y: u32, max_x: u32, max_y: u32, width: u32, height: u32, margin: u32) -> bool {
    ||| min_x < margin
    ||| min_y < margin
    ||| (if max_x + margin > u32::MAX {
        u32::MAX as int
    } else {
        max_x + margin
    }) >= width
    ||| (if max_y + margin > u32::MAX {
        u32::MAX as int
    } else {
        max_y + margin
    }) >= height
}

/// Whether a blob's bounding box comes within `border_margin` pixels of the
/// frame border.
pub fn touches_border(
    min_x: u32,
    min_y: u32,
    max_x: u32,
    max_y: u32,
    width: u32,
    height: u32,
    border_margin: u32,
) -> (r: bool)
    ensures
        r == near_border(min_x, min_y, max_x, max_y, width, height, border_margin),
{
    min_x < border_margin || min_y < border_margin || max_x.saturating_add(border_margin) >= width
        || max_y.saturating_add(border_margin) >= height
}

/// Two to the power `n`.
pub open spec fn two_to(n: nat) -> nat
    decreases n,
{
    if n == 0 {
        1
    } else {
        2 * two_to((n - 1) as nat)
    }
}

/// The value of one or two decimal digits.
proof fn lemma_digits(t: Seq<char>)
    requires
        1 <= t.len() <= 2,
        forall|i: int| 0 <= i < t.len() ==> '0' <= #[trigger] t[i] <= '9',
    ensures
        parse_unsigned(t) == Some(if t.len() == 1 {
            (t[0] as int - 48) as nat
        } else {
            ((t[0] as int - 48) * 10 + (t[1] as int - 48)) as nat
        }),
{
    reveal_with_fuel(digits_value, 3);
    if t.len() == 1 {
        assert(t.drop_last() =~= Seq::<char>::empty());
    } else {
        assert(t.drop_last().drop_last() =~= Seq::<char>::empty());
        assert(t.drop_last() =~= seq![t[0]]);
    }
    assert(all_digits(t));
}

/// A format's name gives its sample depth: `RAWn` formats hold one sample
/// of `n` bits per pixel (largest value `2^n - 1`), `RGBn` formats `n` bits
/// per pixel in 8-bit samples.
pub proof fn lemma_format_name_gives_depth(f: StandardImageFrameFormat)
    ensures
        ({
            let name = spec_format_name(f);
            let bits = parse_unsigned(name.subrange(3, name.len() as int));
            &&& name.len() >= 4
            &&& bits is Some
            &&& name.subrange(0, 3) == "RAW"@ ==> channels_of(f) == 1 && max_sample(f) + 1 == two_to(bits->0)
            &&& name.subrange(0, 3) == "RGB"@ ==> max_sample(f) == 255 && 8 * spec_bytes_per_pixel(f) == bits->0
            &&& name.subrange(0, 3) == "RAW"@ || name.subrange(0, 3) == "RGB"@
        }),
{
    reveal_strlit("RAW8");
    reveal_strlit("RAW10");
    reveal_strlit("RAW12");
    reveal_strlit("RAW14");
    reveal_strlit("RAW16");
    reveal_strlit("RGB24");
    reveal_strlit("RGB32");
    reveal_strlit("RAW");
    reveal_strlit("RGB");
    reveal_with_fuel(two_to, 17);
    let name = spec_format_name(f);
    let tail = name.subrange(3, name.len() as int);
    match f {
        StandardImageFrameFormat::RAW8 => {
            assert(tail =~= seq!['8']);
            lemma_digits(seq!['8']);
            assert(name.subrange(0, 3) =~= "RAW"@);
            assert(name.subrange(0, 3)[1] != "RGB"@[1]);
        },
        StandardImageFrameFormat::RAW10 => {
            assert(tail =~= seq!['1', '0']);
            lemma_digits(seq!['1', '0']);
            assert(name.subrange(0, 3) =~= "RAW"@);
            assert(name.subrange(0, 3)[1] != "RGB"@[1]);
        },
        StandardImageFrameFormat::RAW12 => {
            assert(tail =~= seq!['1', '2']);
            lemma_digits(seq!['1', '2']);
            assert(name.subrange(0, 3) =~= "RAW"@);
            assert(name.subrange(0, 3)[1] != "RGB"@[1]);
        },
        StandardImageFrameFormat::RAW14 => {
            assert(tail =~= seq!['1', '4']);
            lemma_digits(seq!['1', '4']);
            assert(name.subrange(0, 3) =~= "RAW"@);
            assert(name.subrange(0, 3)[1] != "RGB"@[1]);
        },
        StandardImageFrameFormat::RAW16 => {
            assert(tail =~= seq!['1', '6']);
            lemma_digits(seq!['1', '6']);
            assert(name.subrange(0, 3) =~= "RAW"@);
            assert(name.subrange(0, 3)[1] != "RGB"@[1]);
        },
        StandardImageFrameFormat::RGB24 => {
            assert(tail =~= seq!['2', '4']);
            lemma_digits(seq!['2', '4']);
            assert(name.subrange(0, 3) =~= "RGB"@);
            assert(name.subrange(0, 3)[1] != "RAW"@[1]);
        },
        StandardImageFrameFormat::RGB32 => {
            assert(tail =~= seq!['3', '2']);
            lemma_digits(seq!['3', '2']);
            assert(name.subrange(0, 3) =~= "RGB"@);
            assert(name.subrange(0, 3)[1] != "RAW"@[1]);
        },
    }
}

} // verus!
