//! The text summary of a camera's integer capabilities.
use vstd::prelude::*;

use crate::text::{decimal, owned, push_decimal, push_str};
use crate::types::camera::{
    bayer_pattern_name, camera_format_name, CameraBayerPattern, CameraFrameFormat, VastCameraCapBinning,
    VastCameraCapExposure, VastCameraCapGain, VastCameraCapGuiding, VastCameraCapISO, VastCameraCapOffset,
    VastCameraCapRange, VastCameraCapRoi, VastCameraCapRoiCombination, VastCameraCapWhiteBalance,
};

verus! {

/// A camera's capabilities held in integers: all of them but the cooler's
/// temperature range.
#[derive(Clone)]
pub struct VastCameraIntegerCapabilities {
    pub gain: Option<VastCameraCapGain>,
    pub iso: Option<VastCameraCapISO>,
    pub offset: Option<VastCameraCapOffset>,
    pub white_balance: Option<VastCameraCapWhiteBalance>,
    pub contrast: Option<VastCameraCapRange>,
    pub sharpness: Option<VastCameraCapRange>,
    pub saturation: Option<VastCameraCapRange>,
    pub usb_speed: Option<VastCameraCapRange>,
    pub roi: Option<VastCameraCapRoi>,
    pub binning: Option<VastCameraCapBinning>,
    pub guiding: Option<VastCameraCapGuiding>,
    pub exposure: VastCameraCapExposure,
    pub frame_formats: Vec<CameraFrameFormat>,
    pub bayer_pattern: Option<CameraBayerPattern>,
    pub max_height: u32,
    pub max_width: u32,
    pub adc_bits: u32,
}

/// Decimal text of a number.
pub open spec fn dec(n: int) -> Seq<char> {
    decimal(n as nat)
}

/// Texts joined with a separator.
pub open spec fn joined(items: Seq<Seq<char>>, sep: Seq<char>) -> Seq<char>
    decreases items.len(),
{
    if items.len() == 0 {
        Seq::empty()
    } else if items.len() == 1 {
        items[0]
    } else {
        joined(items.drop_last(), sep) + sep + items.last()
    }
}

/// The text of one ROI combination.
pub open spec fn roi_combination_text(c: VastCameraCapRoiCombination) -> Seq<char> {
    "bin "@ + dec(c.bin as int) + ": up to "@ + dec(c.max_width as int) + "x"@ + dec(c.max_height as int)
        + " px, step "@ + dec(c.width_step as int) + "x"@ + dec(c.height_step as int)
}

/// The text of one binning mode.
pub open spec fn binning_mode_text(m: u32) -> Seq<char> {
    dec(m as int) + "x"@ + dec(m as int)
}

/// `"\n- label: min..max"` for a present range.
pub open spec fn range_text(label: Seq<char>, r: Option<VastCameraCapRange>) -> Seq<char> {
    match r {
        Some(r) => "\n- "@ + label + ": "@ + dec(r.min as int) + ".."@ + dec(r.max as int),
        None => Seq::empty(),
    }
}

/// The color type and Bayer pattern lines.
pub open spec fn bayer_text(b: Option<CameraBayerPattern>) -> Seq<char> {
    match b {
        Some(p) => "\n- Type: Color\n- Bayer pattern: "@ + bayer_pattern_name(p),
        None => "\n- Type: Mono\n- Bayer pattern: none"@,
    }
}

/// The ADC line, present for a nonzero bit depth.
pub open spec fn adc_text(bits: u32) -> Seq<char> {
    if bits > 0 {
        "\n- ADC: "@ + dec(bits as int) + " bit"@
    } else {
        Seq::empty()
    }
}

/// The frame formats line.
pub open spec fn formats_text(fs: Seq<CameraFrameFormat>) -> Seq<char> {
    if fs.len() == 0 {
        "\n- Formats: none reported"@
    } else {
        "\n- Formats: "@ + joined(fs.map_values(|f: CameraFrameFormat| camera_format_name(f)), ", "@)
    }
}

/// The gain line.
pub open spec fn gain_text(g: Option<VastCameraCapGain>) -> Seq<char> {
    match g {
        Some(g) => "\n- Gain: "@ + dec(g.min as int) + ".."@ + dec(g.max as int) + " step "@ + dec(g.step as int),
        None => Seq::empty(),
    }
}

/// The lines from the sensor size to the gain range.
pub open spec fn summary_head(c: VastCameraIntegerCapabilities) -> Seq<char> {
    "Camera capabilities\n- Sensor: "@ + dec(c.max_width as int) + "x"@ + dec(c.max_height as int) + " px"@
        + bayer_text(c.bayer_pattern) + adc_text(c.adc_bits) + formats_text(c.frame_formats@) + gain_text(c.gain)
}

/// The exposure line, with the range in seconds given as text.
pub open spec fn exposure_text(e: VastCameraCapExposure, seconds: Seq<char>) -> Seq<char> {
    if e.max_microseconds > 0 {
        "\n- Exposure: "@ + dec(e.min_microseconds as int) + ".."@ + dec(e.max_microseconds as int) + " us ("@
            + dec((e.min_microseconds / 1000) as int) + ".."@ + dec((e.max_microseconds / 1000) as int) + " ms, "@ + seconds
            + " s) step "@ + dec(e.step as int)
    } else {
        Seq::empty()
    }
}

/// The ROI line.
pub open spec fn roi_text(r: Option<VastCameraCapRoi>) -> Seq<char> {
    match r {
        Some(r) => if r.combinations@.len() == 0 {
            "\n- ROI: yes"@
        } else {
            "\n- ROI: "@ + joined(
                r.combinations@.map_values(|x: VastCameraCapRoiCombination| roi_combination_text(x)),
                "; "@,
            )
        },
        None => Seq::empty(),
    }
}

/// The binning line.
pub open spec fn binning_text(b: Option<VastCameraCapBinning>) -> Seq<char> {
    match b {
        Some(b) => "\n- Binning: "@ + joined(b.modes@.map_values(|m: u32| binning_mode_text(m)), ", "@),
        None => Seq::empty(),
    }
}

/// The white balance line.
pub open spec fn white_balance_text(w: Option<VastCameraCapWhiteBalance>) -> Seq<char> {
    match w {
        Some(w) => "\n- White balance: R "@ + dec(w.red.min as int) + ".."@ + dec(w.red.max as int) + ", G "@
            + dec(w.green.min as int) + ".."@ + dec(w.green.max as int) + ", B "@ + dec(w.blue.min as int) + ".."@
            + dec(w.blue.max as int),
        None => Seq::empty(),
    }
}

/// The guiding line.
pub open spec fn guide_text(g: Option<VastCameraCapGuiding>) -> Seq<char> {
    match g {
        Some(g) => "\n- Guide: pulse guide "@ + if g.pulse_guide {
            "yes"@
        } else {
            "no"@
        },
        None => Seq::empty(),
    }
}

/// The ISO line.
pub open spec fn iso_text(i: Option<VastCameraCapISO>) -> Seq<char> {
    match i {
        Some(i) => "\n- ISO: "@ + dec(i.min as int) + ".."@ + dec(i.max as int) + " x"@ + dec(i.multiplier as int),
        None => Seq::empty(),
    }
}

/// The offset line.
pub open spec fn offset_text(o: Option<VastCameraCapOffset>) -> Seq<char> {
    match o {
        Some(o) => "\n- Offset: "@ + dec(o.min as int) + ".."@ + dec(o.max as int) + " step "@ + dec(o.step as int),
        None => Seq::empty(),
    }
}

/// The lines from the ROI to the offset range.
pub open spec fn summary_tail(c: VastCameraIntegerCapabilities) -> Seq<char> {
    roi_text(c.roi) + binning_text(c.binning) + white_balance_text(c.white_balance) + range_text(
        "Contrast"@,
        c.contrast,
    ) + range_text("Sharpness"@, c.sharpness) + range_text("Saturation"@, c.saturation) + range_text(
        "USB speed"@,
        c.usb_speed,
    ) + guide_text(c.guiding) + iso_text(c.iso) + offset_text(c.offset)
}

/// The whole summary but the cooler line, with the exposure range in
/// seconds given as text.
pub open spec fn capabilities_text(c: VastCameraIntegerCapabilities, seconds: Seq<char>) -> Seq<char> {
    summary_head(c) + exposure_text(c.exposure, seconds) + summary_tail(c)
}

proof fn lemma_joined_step(items: Seq<Seq<char>>, sep: Seq<char>, i: int)
    requires
        0 <= i < items.len(),
    ensures
        joined(items.take(i + 1), sep) == if i == 0 {
            items[0]
        } else {
            joined(items.take(i), sep) + sep + items[i]
        },
{
    assert(items.take(i + 1).drop_last() =~= items.take(i));
}

fn push_range_line(out: &mut String, label: &str, r: Option<VastCameraCapRange>)
    ensures
        final(out)@ == old(out)@ + range_text(label@, r),
{
    if let Some(r) = r {
        push_str(out, "\n- ");
        push_str(out, label);
        push_str(out, ": ");
        push_decimal(out, r.min as u64);
        push_str(out, "..");
        push_decimal(out, r.max as u64);
    }
    assert(out@ =~= old(out)@ + range_text(label@, r));
}

fn push_formats(out: &mut String, fs: &Vec<CameraFrameFormat>)
    ensures
        final(out)@ == old(out)@ + joined(fs@.map_values(|f: CameraFrameFormat| camera_format_name(f)), ", "@),
{
    let ghost items = fs@.map_values(|f: CameraFrameFormat| camera_format_name(f));
    let mut i: usize = 0;
    assert(items.take(0) =~= Seq::<Seq<char>>::empty());
    while i < fs.len()
        invariant
            i <= fs.len(),
            items == fs@.map_values(|f: CameraFrameFormat| camera_format_name(f)),
            out@ == old(out)@ + joined(items.take(i as int), ", "@),
        decreases fs.len() - i,
    {
        proof {
            lemma_joined_step(items, ", "@, i as int);
        }
        if i > 0 {
            push_str(out, ", ");
        }
        let name = fs[i].to_string();
        push_str(out, name.as_str());
        i = i + 1;
        assert(out@ =~= old(out)@ + joined(items.take(i as int), ", "@));
    }
    assert(items.take(fs.len() as int) =~= items);
}

fn push_roi_combinations(out: &mut String, cs: &Vec<VastCameraCapRoiCombination>)
    ensures
        final(out)@ == old(out)@ + joined(
            cs@.map_values(|x: VastCameraCapRoiCombination| roi_combination_text(x)),
            "; "@,
        ),
{
    let ghost items = cs@.map_values(|x: VastCameraCapRoiCombination| roi_combination_text(x));
    let mut i: usize = 0;
    assert(items.take(0) =~= Seq::<Seq<char>>::empty());
    while i < cs.len()
        invariant
            i <= cs.len(),
            items == cs@.map_values(|x: VastCameraCapRoiCombination| roi_combination_text(x)),
            out@ == old(out)@ + joined(items.take(i as int), "; "@),
        decreases cs.len() - i,
    {
        proof {
            lemma_joined_step(items, "; "@, i as int);
        }
        if i > 0 {
            push_str(out, "; ");
        }
        let c = cs[i];
        let ghost before = out@;
        push_str(out, "bin ");
        push_decimal(out, c.bin as u64);
        push_str(out, ": up to ");
        push_decimal(out, c.max_width as u64);
        push_str(out, "x");
        push_decimal(out, c.max_height as u64);
        push_str(out, " px, step ");
        push_decimal(out, c.width_step as u64);
        push_str(out, "x");
        push_decimal(out, c.height_step as u64);
        assert(out@ =~= before + roi_combination_text(c));
        i = i + 1;
        assert(out@ =~= old(out)@ + joined(items.take(i as int), "; "@));
    }
    assert(items.take(cs.len() as int) =~= items);
}

fn push_binning_modes(out: &mut String, ms: &Vec<u32>)
    ensures
        final(out)@ == old(out)@ + joined(ms@.map_values(|m: u32| binning_mode_text(m)), ", "@),
{
    let ghost items = ms@.map_values(|m: u32| binning_mode_text(m));
    let mut i: usize = 0;
    assert(items.take(0) =~= Seq::<Seq<char>>::empty());
    while i < ms.len()
        invariant
            i <= ms.len(),
            items == ms@.map_values(|m: u32| binning_mode_text(m)),
            out@ == old(out)@ + joined(items.take(i as int), ", "@),
        decreases ms.len() - i,
    {
        proof {
            lemma_joined_step(items, ", "@, i as int);
        }
        if i > 0 {
            push_str(out, ", ");
        }
        let m = ms[i];
        let ghost before = out@;
        push_decimal(out, m as u64);
        push_str(out, "x");
        push_decimal(out, m as u64);
        assert(out@ =~= before + binning_mode_text(m));
        i = i + 1;
        assert(out@ =~= old(out)@ + joined(items.take(i as int), ", "@));
    }
    assert(items.take(ms.len() as int) =~= items);
}

fn push_bayer(out: &mut String, b: Option<CameraBayerPattern>)
    ensures
        final(out)@ == old(out)@ + bayer_text(b),
{
    match b {
        Some(p) => {
            push_str(out, "\n- Type: Color\n- Bayer pattern: ");
            let name = p.to_string();
            push_str(out, name.as_str());
        },
        None => {
            push_str(out, "\n- Type: Mono\n- Bayer pattern: none");
        },
    }
    assert(out@ =~= old(out)@ + bayer_text(b));
}

fn push_adc(out: &mut String, bits: u32)
    ensures
        final(out)@ == old(out)@ + adc_text(bits),
{
    if bits > 0 {
        push_str(out, "\n- ADC: ");
        push_decimal(out, bits as u64);
        push_str(out, " bit");
    }
    assert(out@ =~= old(out)@ + adc_text(bits));
}

fn push_formats_line(out: &mut String, fs: &Vec<CameraFrameFormat>)
    ensures
        final(out)@ == old(out)@ + formats_text(fs@),
{
    if fs.len() == 0 {
        push_str(out, "\n- Formats: none reported");
    } else {
        push_str(out, "\n- Formats: ");
        push_formats(out, fs);
    }
    assert(out@ =~= old(out)@ + formats_text(fs@));
}

fn push_gain(out: &mut String, g: Option<VastCameraCapGain>)
    ensures
        final(out)@ == old(out)@ + gain_text(g),
{
    if let Some(g) = g {
        push_str(out, "\n- Gain: ");
        push_decimal(out, g.min as u64);
        push_str(out, "..");
        push_decimal(out, g.max as u64);
        push_str(out, " step ");
        push_decimal(out, g.step as u64);
    }
    assert(out@ =~= old(out)@ + gain_text(g));
}

fn push_roi(out: &mut String, r: &Option<VastCameraCapRoi>)
    ensures
        final(out)@ == old(out)@ + roi_text(*r),
{
    match r {
        Some(r) => {
            if r.combinations.len() == 0 {
                push_str(out, "\n- ROI: yes");
            } else {
                push_str(out, "\n- ROI: ");
                push_roi_combinations(out, &r.combinations);
            }
        },
        None => {},
    }
    assert(out@ =~= old(out)@ + roi_text(*r));
}

fn push_binning(out: &mut String, b: &Option<VastCameraCapBinning>)
    ensures
        final(out)@ == old(out)@ + binning_text(*b),
{
    match b {
        Some(b) => {
            push_str(out, "\n- Binning: ");
            push_binning_modes(out, &b.modes);
        },
        None => {},
    }
    assert(out@ =~= old(out)@ + binning_text(*b));
}

fn push_white_balance(out: &mut String, w: Option<VastCameraCapWhiteBalance>)
    ensures
        final(out)@ == old(out)@ + white_balance_text(w),
{
    if let Some(w) = w {
        push_str(out, "\n- White balance: R ");
        push_decimal(out, w.red.min as u64);
        push_str(out, "..");
        push_decimal(out, w.red.max as u64);
        push_str(out, ", G ");
        push_decimal(out, w.green.min as u64);
        push_str(out, "..");
        push_decimal(out, w.green.max as u64);
        push_str(out, ", B ");
        push_decimal(out, w.blue.min as u64);
        push_str(out, "..");
        push_decimal(out, w.blue.max as u64);
    }
    assert(out@ =~= old(out)@ + white_balance_text(w));
}

fn push_guide(out: &mut String, g: Option<VastCameraCapGuiding>)
    ensures
        final(out)@ == old(out)@ + guide_text(g),
{
    if let Some(g) = g {
        push_str(out, "\n- Guide: pulse guide ");
        if g.pulse_guide {
            push_str(out, "yes");
        } else {
            push_str(out, "no");
        }
    }
    assert(out@ =~= old(out)@ + guide_text(g));
}

fn push_iso(out: &mut String, i: Option<VastCameraCapISO>)
    ensures
        final(out)@ == old(out)@ + iso_text(i),
{
    if let Some(i) = i {
        push_str(out, "\n- ISO: ");
        push_decimal(out, i.min as u64);
        push_str(out, "..");
        push_decimal(out, i.max as u64);
        push_str(out, " x");
        push_decimal(out, i.multiplier as u64);
    }
    assert(out@ =~= old(out)@ + iso_text(i));
}

fn push_offset(out: &mut String, o: Option<VastCameraCapOffset>)
    ensures
        final(out)@ == old(out)@ + offset_text(o),
{
    if let Some(o) = o {
        push_str(out, "\n- Offset: ");
        push_decimal(out, o.min as u64);
        push_str(out, "..");
        push_decimal(out, o.max as u64);
        push_str(out, " step ");
        push_decimal(out, o.step as u64);
    }
    assert(out@ =~= old(out)@ + offset_text(o));
}

impl VastCameraIntegerCapabilities {
    #[verifier::spinoff_prover]
    #[verifier::rlimit(50)]
    fn push_head(&self, out: &mut String)
        ensures
            final(out)@ == old(out)@ + summary_head(*self),
    {
        push_str(out, "Camera capabilities\n- Sensor: ");
        push_decimal(out, self.max_width as u64);
        push_str(out, "x");
        push_decimal(out, self.max_height as u64);
        push_str(out, " px");
        push_bayer(out, self.bayer_pattern);
        push_adc(out, self.adc_bits);
        push_formats_line(out, &self.frame_formats);
        push_gain(out, self.gain);
        assert(out@ =~= old(out)@ + summary_head(*self));
    }

    fn push_exposure(&self, out: &mut String, seconds: &str)
        ensures
            final(out)@ == old(out)@ + exposure_text(self.exposure, seconds@),
    {
        let e = self.exposure;
        if e.max_microseconds > 0 {
            push_str(out, "\n- Exposure: ");
            push_decimal(out, e.min_microseconds);
            push_str(out, "..");
            push_decimal(out, e.max_microseconds);
            push_str(out, " us (");
            push_decimal(out, e.min_milliseconds());
            push_str(out, "..");
            push_decimal(out, e.max_milliseconds());
            push_str(out, " ms, ");
            push_str(out, seconds);
            push_str(out, " s) step ");
            push_decimal(out, e.step as u64);
        }
        assert(out@ =~= old(out)@ + exposure_text(self.exposure, seconds@));
    }

    #[verifier::spinoff_prover]
    #[verifier::rlimit(50)]
    fn push_tail(&self, out: &mut String)
        ensures
            final(out)@ == old(out)@ + summary_tail(*self),
    {
        push_roi(out, &self.roi);
        push_binning(out, &self.binning);
        push_white_balance(out, self.white_balance);
        push_range_line(out, "Contrast", self.contrast);
        push_range_line(out, "Sharpness", self.sharpness);
        push_range_line(out, "Saturation", self.saturation);
        push_range_line(out, "USB speed", self.usb_speed);
        push_guide(out, self.guiding);
        push_iso(out, self.iso);
        push_offset(out, self.offset);
        assert(out@ =~= old(out)@ + summary_tail(*self));
    }

    /// The summary of the capabilities, every line but the cooler's, with
    /// the exposure range in seconds given as text.
    #[verifier::spinoff_prover]
    #[verifier::rlimit(50)]
    pub fn capabilities_summary(&self, exposure_seconds: &str) -> (r: String)
        ensures
            r@ == capabilities_text(*self, exposure_seconds@),
    {
        let mut out = String::new();
        self.push_head(&mut out);
        self.push_exposure(&mut out, exposure_seconds);
        self.push_tail(&mut out);
        assert(out@ =~= capabilities_text(*self, exposure_seconds@));
        out
    }
}

} // verus!
