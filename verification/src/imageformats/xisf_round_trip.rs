//! Reading an XISF file gives back the frame the writer was given.
use vstd::prelude::*;
use vstd::utf8::{decode_utf8, encode_utf8, valid_utf8};

use crate::imageformats::types::frame_len;
use crate::imageformats::xisf::{
    attr_value, block_frame_data, image_element_bounds, le_u32_at, le_u32_bytes, lemma_header_encoded_len,
    parse_format_name, parse_geometry, parse_location, property_value, xisf_file, xisf_final_header,
    xisf_frame, xisf_header, xisf_preamble, xisf_signature, xisf_channels, xisf_color_space, xisf_geometry, xisf_image_data,
    xisf_image_element, xisf_image_shape, xisf_location, xisf_sample_format, infer_format,
};
use crate::scan::{
    find_from, lemma_split_cons, lemma_split_none, split_parts, lemma_find_from_here, lemma_find_from_skip, lemma_find_from_skip_pairs,
    lemma_find_from_skip_triples,
};
use crate::text::{
    decimal, is_digit, lemma_decimal_digits, lemma_parse_decimal, lemma_parse_padded, lemma_trim_plain, pad_left,
};
use crate::types::imageformats::{is_wide_raw, spec_bytes_per_pixel, spec_format_name, StandardImageFrameFormat};
use crate::algos::images::{channels_of, max_sample};

verus! {

/// Characters that are ASCII digits or colons.
pub open spec fn digits_or_colons(s: Seq<char>) -> bool {
    forall|i: int| 0 <= i < s.len() ==> is_digit(#[trigger] s[i]) || s[i] == ':'
}

/// The geometry attribute holds digits and colons only.
proof fn lemma_geometry_chars(w: u32, h: u32, f: StandardImageFrameFormat)
    ensures
        digits_or_colons(xisf_geometry(w, h, f)),
{
    lemma_decimal_digits(w as nat);
    lemma_decimal_digits(h as nat);
    lemma_decimal_digits(xisf_channels(f));
    let g = xisf_geometry(w, h, f);
    let a = decimal(w as nat);
    let b = decimal(h as nat);
    let c = decimal(xisf_channels(f));
    assert forall|i: int| 0 <= i < g.len() implies is_digit(#[trigger] g[i]) || g[i] == ':' by {
        if i < a.len() {
            assert(g[i] == a[i]);
        } else if i == a.len() {
        } else if i < a.len() + 1 + b.len() {
            assert(g[i] == b[i - a.len() - 1]);
        } else if i == a.len() + 1 + b.len() {
        } else {
            assert(g[i] == c[i - a.len() - 2 - b.len()]);
        }
    }
}

/// The location attribute is `attachment:` followed by digits and colons.
proof fn lemma_location_chars(offset: nat, len: nat)
    ensures
        xisf_location(offset, len).len() >= 11,
        xisf_location(offset, len).subrange(0, 11) == "attachment:"@,
        digits_or_colons(xisf_location(offset, len).subrange(11, xisf_location(offset, len).len() as int)),
{
    reveal_strlit("attachment:");
    lemma_parse_padded(offset, 20);
    lemma_parse_padded(len, 20);
    let p = pad_left(decimal(offset), 20, '0');
    let q = pad_left(decimal(len), 20, '0');
    let l = xisf_location(offset, len);
    assert(l.subrange(0, 11) =~= "attachment:"@);
    let rest = l.subrange(11, l.len() as int);
    assert(rest =~= p + seq![':'] + q);
    assert forall|i: int| 0 <= i < rest.len() implies is_digit(#[trigger] rest[i]) || rest[i] == ':' by {
        if i < p.len() {
            assert(rest[i] == p[i]);
        } else if i > p.len() {
            assert(rest[i] == q[i - p.len() - 1]);
        }
    }
}

/// The `geometry` attribute of the written `Image` element.
proof fn lemma_attr_geometry(w: u32, h: u32, f: StandardImageFrameFormat, offset: nat, len: nat)
    ensures
        attr_value(xisf_image_element(w, h, f, offset, len), "geometry=\""@) == Some(xisf_geometry(w, h, f)),
{
    reveal_strlit("<Image geometry=\"");
    reveal_strlit("geometry=\"");
    reveal_strlit("\" sampleFormat=\"");
    let ie = xisf_image_element(w, h, f, offset, len);
    let g = xisf_geometry(w, h, f);
    let needle = "geometry=\""@;
    let gl = g.len() as int;
    lemma_geometry_chars(w, h, f);
    assert(ie == "<Image geometry=\""@ + g + ("\" sampleFormat=\""@ + xisf_sample_format(f) + seq!['"']
        + xisf_color_space(f) + xisf_image_data(f, offset, len))) by {
        assert(ie =~= "<Image geometry=\""@ + g + ("\" sampleFormat=\""@ + xisf_sample_format(f) + seq!['"']
            + xisf_color_space(f) + xisf_image_data(f, offset, len)));
    }
    lemma_find_from_skip_triples(ie, needle, 0, 7);
    assert(ie.subrange(7, 17) =~= needle);
    lemma_find_from_here(ie, needle, 7);
    assert forall|j: int| 17 <= j < 17 + gl implies ie[j] != seq!['"'][0] by {
        assert(ie[j] == g[j - 17]);
    }
    lemma_find_from_skip(ie, seq!['"'], 17, 17 + gl);
    assert(ie.subrange(17 + gl, 18 + gl) =~= seq!['"']);
    lemma_find_from_here(ie, seq!['"'], 17 + gl);
    assert(ie.subrange(17, 17 + gl) =~= g);
}


/// The `sampleFormat` attribute of the written `Image` element.
proof fn lemma_attr_sample_format(w: u32, h: u32, f: StandardImageFrameFormat, offset: nat, len: nat)
    ensures
        attr_value(xisf_image_element(w, h, f, offset, len), "sampleFormat=\""@) == Some(xisf_sample_format(f)),
{
    reveal_strlit("<Image geometry=\"");
    reveal_strlit("sampleFormat=\"");
    reveal_strlit("\" sampleFormat=\"");
    reveal_strlit("UInt8");
    reveal_strlit("UInt16");
    let ie = xisf_image_element(w, h, f, offset, len);
    let g = xisf_geometry(w, h, f);
    let sf = xisf_sample_format(f);
    let needle = "sampleFormat=\""@;
    let gl = g.len() as int;
    let sl = sf.len() as int;
    lemma_geometry_chars(w, h, f);
    assert(ie =~= "<Image geometry=\""@ + g + "\" sampleFormat=\""@ + sf + (seq!['"'] + xisf_color_space(f)
        + xisf_image_data(f, offset, len)));
    assert forall|j: int| 0 <= j < 19 + gl implies ie[j] != needle[0] by {
        if 17 <= j < 17 + gl {
            assert(ie[j] == g[j - 17]);
        }
    }
    lemma_find_from_skip(ie, needle, 0, 19 + gl);
    assert(ie.subrange(19 + gl, 33 + gl) =~= needle);
    lemma_find_from_here(ie, needle, 19 + gl);
    lemma_find_from_skip(ie, seq!['"'], 33 + gl, 33 + gl + sl);
    assert(ie.subrange(33 + gl + sl, 34 + gl + sl) =~= seq!['"']);
    lemma_find_from_here(ie, seq!['"'], 33 + gl + sl);
    assert(ie.subrange(33 + gl, 33 + gl + sl) =~= sf);
}

/// The `location` attribute of the written `Image` element.
proof fn lemma_attr_location(w: u32, h: u32, f: StandardImageFrameFormat, offset: nat, len: nat)
    ensures
        attr_value(xisf_image_element(w, h, f, offset, len), "location=\""@) == Some(xisf_location(offset, len)),
{
    reveal_strlit("<Image geometry=\"");
    reveal_strlit("location=\"");
    reveal_strlit("\" sampleFormat=\"");
    reveal_strlit("UInt8");
    reveal_strlit("UInt16");
    reveal_strlit(" colorSpace=\"RGB\"");
    reveal_strlit(" location=\"");
    reveal_strlit("\">");
    reveal_strlit("attachment:");
    let ie = xisf_image_element(w, h, f, offset, len);
    let g = xisf_geometry(w, h, f);
    let sf = xisf_sample_format(f);
    let cs = xisf_color_space(f);
    let loc = xisf_location(offset, len);
    let needle = "location=\""@;
    let gl = g.len() as int;
    let sl = sf.len() as int;
    let cl = cs.len() as int;
    let ll = loc.len() as int;
    let start = 35 + gl + sl + cl;
    lemma_geometry_chars(w, h, f);
    lemma_location_chars(offset, len);
    assert(ie =~= "<Image geometry=\""@ + g + "\" sampleFormat=\""@ + sf + seq!['"'] + cs + " location=\""@ + loc + (
    "\">"@ + "<Property id=\"LVFMT\" type=\"String\" value=\""@ + spec_format_name(f) + "\"/>"@ + "</Image>"@));
    assert forall|j: int| 0 <= j < start && j + 2 < ie.len() implies !(#[trigger] ie[j] == needle[0] && ie[j + 1]
        == needle[1] && ie[j + 2] == needle[2]) by {
        if 17 <= j < 17 + gl {
            assert(ie[j] == g[j - 17]);
        }
    }
    lemma_find_from_skip_triples(ie, needle, 0, start);
    assert(ie.subrange(start, start + 10) =~= needle);
    lemma_find_from_here(ie, needle, start);
    assert forall|j: int| start + 10 <= j < start + 10 + ll implies ie[j] != seq!['"'][0] by {
        assert(ie[j] == loc[j - start - 10]);
        if j - start - 10 >= 11 {
            assert(loc.subrange(11, ll)[j - start - 21] == loc[j - start - 10]);
        } else {
            assert(loc.subrange(0, 11)[j - start - 10] == loc[j - start - 10]);
        }
    }
    lemma_find_from_skip(ie, seq!['"'], start + 10, start + 10 + ll);
    assert(ie.subrange(start + 10 + ll, start + 11 + ll) =~= seq!['"']);
    lemma_find_from_here(ie, seq!['"'], start + 10 + ll);
    assert(ie.subrange(start + 10, start + 10 + ll) =~= loc);
}

/// The `LVFMT` property of the written `Image` element.
#[verifier::spinoff_prover]
proof fn lemma_property_format(w: u32, h: u32, f: StandardImageFrameFormat, offset: nat, len: nat)
    ensures
        property_value(xisf_image_element(w, h, f, offset, len), "<Property id=\"LVFMT\""@) == Some(
            spec_format_name(f),
        ),
{
    reveal_strlit("<Image geometry=\"");
    reveal_strlit("<Property id=\"LVFMT\"");
    reveal_strlit("\" sampleFormat=\"");
    reveal_strlit("UInt8");
    reveal_strlit("UInt16");
    reveal_strlit(" colorSpace=\"RGB\"");
    reveal_strlit(" location=\"");
    reveal_strlit("\">");
    reveal_strlit("attachment:");
    reveal_strlit("<Property id=\"LVFMT\" type=\"String\" value=\"");
    reveal_strlit("\"/>");
    reveal_strlit("/>");
    reveal_strlit("RAW8");
    reveal_strlit("RAW10");
    reveal_strlit("RAW12");
    reveal_strlit("RAW14");
    reveal_strlit("RAW16");
    reveal_strlit("RGB24");
    reveal_strlit("RGB32");
    let ie = xisf_image_element(w, h, f, offset, len);
    let g = xisf_geometry(w, h, f);
    let sf = xisf_sample_format(f);
    let cs = xisf_color_space(f);
    let loc = xisf_location(offset, len);
    let name = spec_format_name(f);
    let prop = "<Property id=\"LVFMT\" type=\"String\" value=\""@;
    let needle = "<Property id=\"LVFMT\""@;
    let gl = g.len() as int;
    let sl = sf.len() as int;
    let cl = cs.len() as int;
    let ll = loc.len() as int;
    let nl = name.len() as int;
    let start = 47 + gl + sl + cl + ll;
    lemma_geometry_chars(w, h, f);
    lemma_location_chars(offset, len);
    assert(ie =~= "<Image geometry=\""@ + g + "\" sampleFormat=\""@ + sf + seq!['"'] + cs + " location=\""@ + loc
        + "\">"@ + (prop + name + "\"/>"@ + "</Image>"@));
    assert forall|j: int| 0 <= j < start && j + 1 < ie.len() implies !(#[trigger] ie[j] == needle[0] && ie[j + 1]
        == needle[1]) by {
        if 17 <= j < 17 + gl {
            assert(ie[j] == g[j - 17]);
        }
        if 45 + gl + sl + cl <= j < 45 + gl + sl + cl + ll {
            let k = j - 45 - gl - sl - cl;
            assert(ie[j] == loc[k]);
            if k >= 11 {
                assert(loc.subrange(11, ll)[k - 11] == loc[k]);
            } else {
                assert(loc.subrange(0, 11)[k] == loc[k]);
            }
        }
    }
    lemma_find_from_skip_pairs(ie, needle, 0, start);
    assert(ie.subrange(start, start + 20) =~= needle);
    lemma_find_from_here(ie, needle, start);
    let close = "/>"@;
    let q = start + 42 + nl + 1;
    assert forall|j: int| start <= j < q implies ie[j] != close[0] by {
        if start + 42 <= j < start + 42 + nl {
            assert(ie[j] == name[j - start - 42]);
        }
    }
    lemma_find_from_skip(ie, close, start, q);
    assert(ie.subrange(q, q + 2) =~= close);
    lemma_find_from_here(ie, close, q);
    let sub = ie.subrange(start, q + 2);
    assert(sub =~= prop + name + "\"/>"@);
    lemma_value_attr(f);
}

/// The `value` attribute of the written format property.
proof fn lemma_value_attr(f: StandardImageFrameFormat)
    ensures
        attr_value("<Property id=\"LVFMT\" type=\"String\" value=\""@ + spec_format_name(f) + "\"/>"@, "value=\""@)
            == Some(spec_format_name(f)),
{
    reveal_strlit("<Property id=\"LVFMT\" type=\"String\" value=\"");
    reveal_strlit("\"/>");
    reveal_strlit("value=\"");
    reveal_strlit("RAW8");
    reveal_strlit("RAW10");
    reveal_strlit("RAW12");
    reveal_strlit("RAW14");
    reveal_strlit("RAW16");
    reveal_strlit("RGB24");
    reveal_strlit("RGB32");
    let name = spec_format_name(f);
    let nl = name.len() as int;
    let sub = "<Property id=\"LVFMT\" type=\"String\" value=\""@ + name + "\"/>"@;
    let value = "value=\""@;
    lemma_find_from_skip(sub, value, 0, 35);
    assert(sub.subrange(35, 42) =~= value);
    lemma_find_from_here(sub, value, 35);
    assert forall|j: int| 42 <= j < 42 + nl implies sub[j] != seq!['"'][0] by {
        assert(sub[j] == name[j - 42]);
    }
    lemma_find_from_skip(sub, seq!['"'], 42, 42 + nl);
    assert(sub.subrange(42 + nl, 43 + nl) =~= seq!['"']);
    lemma_find_from_here(sub, seq!['"'], 42 + nl);
    assert(sub.subrange(42, 42 + nl) =~= name);
}

/// The written header's `Image` element starts right after the preamble.
proof fn lemma_open_tag(w: u32, h: u32, f: StandardImageFrameFormat, offset: nat, len: nat)
    ensures
        xisf_preamble().len() == 409,
        find_from(xisf_header(w, h, f, offset, len), "<Image "@, 0) == Some(409int),
{
    reveal_strlit("<?xml version=\"1.0\" encoding=\"UTF-8\"?>");
    reveal_strlit("<xisf version=\"1.0\" xmlns=\"http://www.pixinsight.com/xisf\" xmlns:xsi=\"http://www.w3.org/2001/XMLSchema-instance\" xsi:schemaLocation=\"http://www.pixinsight.com/xisf http://pixinsight.com/xisf/xisf-1.0.xsd\">");
    reveal_strlit("<Metadata>");
    reveal_strlit("<Property id=\"XISF:CreationTime\" type=\"String\" value=\"1970-01-01T00:00:00Z\"/>");
    reveal_strlit("<Property id=\"XISF:CreatorApplication\" type=\"String\" value=\"lvast\"/>");
    reveal_strlit("</Metadata>");
    reveal_strlit("<Image ");
    reveal_strlit("<Image geometry=\"");
    let pre = xisf_preamble();
    let ie = xisf_image_element(w, h, f, offset, len);
    let hdr = xisf_header(w, h, f, offset, len);
    assert(pre.len() == 409);
    let open_tag = "<Image "@;
    assert(ie =~= "<Image geometry=\""@ + (xisf_geometry(w, h, f) + "\" sampleFormat=\""@ + xisf_sample_format(f)
        + seq!['"'] + xisf_color_space(f) + xisf_image_data(f, offset, len)));
    assert(hdr =~= pre + "<Image geometry=\""@ + (xisf_geometry(w, h, f) + "\" sampleFormat=\""@ + xisf_sample_format(f)
        + seq!['"'] + xisf_color_space(f) + xisf_image_data(f, offset, len) + "</xisf>"@));
    assert forall|j: int| 0 <= j < 409 && j + 1 < hdr.len() implies !(#[trigger] hdr[j] == open_tag[0] && hdr[j
        + 1] == open_tag[1]) by {
        assert(hdr[j] == pre[j]);
        if j + 1 < 409 {
            assert(hdr[j + 1] == pre[j + 1]);
        }
    }
    lemma_find_from_skip_pairs(hdr, open_tag, 0, 409);
    assert(hdr.subrange(409, 416) =~= open_tag);
    lemma_find_from_here(hdr, open_tag, 409);
}

/// Inside the written `Image` element, `<` is followed by `/` only in the
/// closing tag.
#[verifier::spinoff_prover]
#[verifier::rlimit(80)]
proof fn lemma_element_closing(w: u32, h: u32, f: StandardImageFrameFormat, offset: nat, len: nat)
    ensures
        ({
            let ie = xisf_image_element(w, h, f, offset, len);
            &&& ie.len() >= 8
            &&& ie.subrange(ie.len() - 8, ie.len() as int) == "</Image>"@
            &&& forall|k: int| 0 <= k < ie.len() - 8 ==> !(#[trigger] ie[k] == '<' && ie[k + 1] == '/')
        }),
{
    reveal_strlit("</Image>");
    reveal_strlit("<Image geometry=\"");
    reveal_strlit("\" sampleFormat=\"");
    reveal_strlit("UInt8");
    reveal_strlit("UInt16");
    reveal_strlit(" colorSpace=\"RGB\"");
    reveal_strlit(" location=\"");
    reveal_strlit("\">");
    reveal_strlit("attachment:");
    reveal_strlit("<Property id=\"LVFMT\" type=\"String\" value=\"");
    reveal_strlit("\"/>");
    reveal_strlit("RAW8");
    reveal_strlit("RAW10");
    reveal_strlit("RAW12");
    reveal_strlit("RAW14");
    reveal_strlit("RAW16");
    reveal_strlit("RGB24");
    reveal_strlit("RGB32");
    let ie = xisf_image_element(w, h, f, offset, len);
    let g = xisf_geometry(w, h, f);
    let sf = xisf_sample_format(f);
    let cs = xisf_color_space(f);
    let loc = xisf_location(offset, len);
    let name = spec_format_name(f);
    let gl = g.len() as int;
    let sl = sf.len() as int;
    let cl = cs.len() as int;
    let ll = loc.len() as int;
    let il = ie.len() as int;
    lemma_geometry_chars(w, h, f);
    lemma_location_chars(offset, len);
    assert(ie =~= "<Image geometry=\""@ + g + "\" sampleFormat=\""@ + sf + seq!['"'] + cs + " location=\""@ + loc
        + "\">"@ + "<Property id=\"LVFMT\" type=\"String\" value=\""@ + name + "\"/>"@ + "</Image>"@);
    assert(ie.subrange(il - 8, il) =~= "</Image>"@);
    assert forall|k: int| 0 <= k < il - 8 implies !(#[trigger] ie[k] == '<' && ie[k + 1] == '/') by {
        if 17 <= k < 17 + gl {
            assert(ie[k] == g[k - 17]);
        }
        if 45 + gl + sl + cl <= k < 45 + gl + sl + cl + ll {
            let m = k - 45 - gl - sl - cl;
            assert(ie[k] == loc[m]);
            if m >= 11 {
                assert(loc.subrange(11, ll)[m - 11] == loc[m]);
            } else {
                assert(loc.subrange(0, 11)[m] == loc[m]);
            }
        }
    }
}

/// The written header's `Image` element ends with its closing tag.
proof fn lemma_close_tag(w: u32, h: u32, f: StandardImageFrameFormat, offset: nat, len: nat)
    ensures
        find_from(xisf_header(w, h, f, offset, len), "</Image>"@, 409) == Some(
            409 + xisf_image_element(w, h, f, offset, len).len() - 8,
        ),
{
    lemma_open_tag(w, h, f, offset, len);
    lemma_element_closing(w, h, f, offset, len);
    reveal_strlit("</Image>");
    let pre = xisf_preamble();
    let ie = xisf_image_element(w, h, f, offset, len);
    let hdr = xisf_header(w, h, f, offset, len);
    let il = ie.len() as int;
    let close_tag = "</Image>"@;
    assert forall|j: int| 409 <= j < 409 + il - 8 && j + 1 < hdr.len() implies !(#[trigger] hdr[j]
        == close_tag[0] && hdr[j + 1] == close_tag[1]) by {
        assert(hdr[j] == ie[j - 409]);
        assert(hdr[j + 1] == ie[j - 408]);
    }
    lemma_find_from_skip_pairs(hdr, close_tag, 409, 409 + il - 8);
    assert(hdr.subrange(409 + il - 8, 409 + il) =~= ie.subrange(il - 8, il));
    lemma_find_from_here(hdr, close_tag, 409 + il - 8);
}

/// The written header's `Image` element is found where the writer put it.
proof fn lemma_element_bounds(w: u32, h: u32, f: StandardImageFrameFormat, offset: nat, len: nat)
    ensures
        image_element_bounds(xisf_header(w, h, f, offset, len)) == Some(
            (409int, 409 + xisf_image_element(w, h, f, offset, len).len() as int),
        ),
        xisf_header(w, h, f, offset, len).subrange(409, 409 + xisf_image_element(w, h, f, offset, len).len() as int)
            == xisf_image_element(w, h, f, offset, len),
{
    lemma_open_tag(w, h, f, offset, len);
    lemma_close_tag(w, h, f, offset, len);
    let hdr = xisf_header(w, h, f, offset, len);
    let ie = xisf_image_element(w, h, f, offset, len);
    assert(hdr.subrange(409, 409 + ie.len() as int) =~= ie);
}

/// Reading the written geometry gives the dimensions and channel count.
proof fn lemma_parse_geometry(w: u32, h: u32, f: StandardImageFrameFormat)
    ensures
        parse_geometry(xisf_geometry(w, h, f)) == Some((w, h, xisf_channels(f) as u32)),
{
    let a = decimal(w as nat);
    let b = decimal(h as nat);
    let c = decimal(xisf_channels(f));
    lemma_decimal_digits(w as nat);
    lemma_decimal_digits(h as nat);
    lemma_decimal_digits(xisf_channels(f));
    lemma_parse_decimal(w as nat);
    lemma_parse_decimal(h as nat);
    lemma_parse_decimal(xisf_channels(f));
    assert forall|i: int| 0 <= i < a.len() implies a[i] != ':' by {
        assert(is_digit(a[i]));
    }
    assert forall|i: int| 0 <= i < b.len() implies b[i] != ':' by {
        assert(is_digit(b[i]));
    }
    assert forall|i: int| 0 <= i < c.len() implies c[i] != ':' by {
        assert(is_digit(c[i]));
    }
    assert(xisf_geometry(w, h, f) =~= a + seq![':'] + (b + seq![':'] + c));
    lemma_split_cons(a, ':', b + seq![':'] + c);
    lemma_split_cons(b, ':', c);
    lemma_split_none(c, ':');
    assert(split_parts(xisf_geometry(w, h, f), ':') =~= seq![a, b, c]);
}

/// Reading the written format name gives the format.
proof fn lemma_parse_format_name(f: StandardImageFrameFormat)
    ensures
        parse_format_name(spec_format_name(f)) == Some(f),
{
    reveal_strlit("RAW8");
    reveal_strlit("RAW10");
    reveal_strlit("RAW12");
    reveal_strlit("RAW14");
    reveal_strlit("RAW16");
    reveal_strlit("RGB24");
    reveal_strlit("RGB32");
    let n = spec_format_name(f);
    lemma_trim_plain(n);
    match f {
        StandardImageFrameFormat::RAW12 => {
            assert(n[4] != "RAW10"@[4]);
        },
        StandardImageFrameFormat::RAW14 => {
            assert(n[4] != "RAW10"@[4]);
            assert(n[4] != "RAW12"@[4]);
        },
        StandardImageFrameFormat::RAW16 => {
            assert(n[4] != "RAW10"@[4]);
            assert(n[4] != "RAW12"@[4]);
            assert(n[4] != "RAW14"@[4]);
        },
        StandardImageFrameFormat::RGB24 => {
            assert(n[1] != "RAW10"@[1]);
            assert(n[1] != "RAW12"@[1]);
            assert(n[1] != "RAW14"@[1]);
            assert(n[1] != "RAW16"@[1]);
        },
        StandardImageFrameFormat::RGB32 => {
            assert(n[1] != "RAW10"@[1]);
            assert(n[1] != "RAW12"@[1]);
            assert(n[1] != "RAW14"@[1]);
            assert(n[1] != "RAW16"@[1]);
            assert(n[4] != "RGB24"@[4]);
        },
        _ => {},
    }
}

/// Reading the written location gives the offset and length.
proof fn lemma_parse_location(offset: nat, len: nat)
    requires
        offset <= usize::MAX,
        len <= usize::MAX,
    ensures
        parse_location(xisf_location(offset, len)) == Some((offset as usize, len as usize)),
{
    reveal_strlit("attachment:");
    reveal_strlit("attachment");
    let p = pad_left(decimal(offset), 20, '0');
    let q = pad_left(decimal(len), 20, '0');
    lemma_parse_padded(offset, 20);
    lemma_parse_padded(len, 20);
    let k = "attachment"@;
    assert forall|i: int| 0 <= i < p.len() implies p[i] != ':' by {
        assert(is_digit(p[i]));
    }
    assert forall|i: int| 0 <= i < q.len() implies q[i] != ':' by {
        assert(is_digit(q[i]));
    }
    assert(xisf_location(offset, len) =~= k + seq![':'] + (p + seq![':'] + q));
    lemma_split_cons(k, ':', p + seq![':'] + q);
    lemma_split_cons(p, ':', q);
    lemma_split_none(q, ':');
    assert(split_parts(xisf_location(offset, len), ':') =~= seq![k, p, q]);
}

/// The little-endian bytes of a 32-bit value read back as that value.
proof fn lemma_le_u32(n: u32)
    ensures
        le_u32_at(le_u32_bytes(n as nat), 0) == n,
{
    let b = le_u32_bytes(n as nat);
    assert(b[0] as nat == n % 256);
    assert(b[1] as nat == (n / 256) % 256);
    assert(b[2] as nat == (n / 65536) % 256);
    assert(b[3] as nat == (n / 16777216) % 256);
    assert((n % 256) + ((n / 256) % 256) * 256 + ((n / 65536) % 256) * 65536 + ((n / 16777216) % 256) * 16777216 == n)
        by (bit_vector);
}

/// Reading what the XISF writer wrote for a frame gives the frame back: its
/// width, height, format and bytes.
pub proof fn lemma_xisf_round_trip(w: u32, h: u32, f: StandardImageFrameFormat, data: Seq<u8>)
    requires
        data.len() == frame_len(w, h, f),
        data.len() <= usize::MAX,
    ensures
        xisf_file(w, h, f, data) is Some,
        xisf_frame(xisf_file(w, h, f, data).unwrap()) == Some((w, h, f, data)),
{
    let n = data.len();
    let l0 = encode_utf8(xisf_header(w, h, f, 0, n)).len();
    lemma_header_encoded_len(w, h, f, 0, 0, n);
    let off = 16 + l0;
    lemma_header_encoded_len(w, h, f, off, 0, n);
    let hdr = xisf_header(w, h, f, off, n);
    assert(hdr == xisf_final_header(w, h, f, n));
    let e = encode_utf8(hdr);
    let b = xisf_file(w, h, f, data).unwrap();
    assert(b == xisf_signature() + le_u32_bytes(l0) + seq![0u8, 0u8, 0u8, 0u8] + e + data);
    assert(b.subrange(0, 8) =~= xisf_signature());
    lemma_le_u32(l0 as u32);
    assert(b.subrange(8, 12) =~= le_u32_bytes(l0));
    assert(le_u32_at(b, 8) == le_u32_at(le_u32_bytes(l0), 0));
    assert(b.subrange(16, 16 + l0 as int) =~= e);
    vstd::utf8::encode_utf8_valid_utf8(hdr);
    vstd::utf8::encode_utf8_decode_utf8(hdr);
    let ie = xisf_image_element(w, h, f, off, n);
    lemma_element_bounds(w, h, f, off, n);
    lemma_attr_geometry(w, h, f, off, n);
    lemma_attr_sample_format(w, h, f, off, n);
    lemma_attr_location(w, h, f, off, n);
    lemma_property_format(w, h, f, off, n);
    lemma_parse_geometry(w, h, f);
    lemma_parse_format_name(f);
    lemma_parse_location(off, n);
    assert(b.subrange(off as int, off + n as int) =~= data);
    if is_wide_raw(f) {
        assert(n % 2 == 0) by (nonlinear_arith)
            requires
                n == w as int * h as int * 2,
        ;
        assert(data.subrange(0, n - n % 2) =~= data);
    }
    assert(block_frame_data(data, f) == data);
}

/// A file without an `LVFMT` property is read with the format whose pixel
/// holds exactly the file's channels of the file's sample width: `UInt8`
/// samples are 8-bit (largest value 255), `UInt16` samples 16-bit (largest
/// value 65535), and a pixel takes `channels x sample bytes` bytes. The
/// formats with 1 channel of `UInt8` or `UInt16` and 3 or 4 channels of
/// `UInt8` are read; no other combination is.
pub proof fn lemma_inferred_format_matches_samples(sample_format: Seq<char>, channels: u32)
    ensures
        infer_format(sample_format, channels) matches Some(f) ==> {
            let sample_bytes: nat = if sample_format == "UInt8"@ { 1 } else { 2 };
            &&& spec_bytes_per_pixel(f) == channels * sample_bytes
            &&& channels_of(f) == channels
            &&& max_sample(f) == if sample_format == "UInt8"@ { 255nat } else { 65535nat }
        },
        infer_format(sample_format, channels) is Some <==> ((sample_format == "UInt8"@ && (channels == 1
            || channels == 3 || channels == 4)) || (sample_format == "UInt16"@ && channels == 1)),
{
    reveal_strlit("UInt8");
    reveal_strlit("UInt16");
    assert("UInt8"@ != "UInt16"@) by {
        assert("UInt8"@.len() != "UInt16"@.len());
    }
}

/// The writer's `sampleFormat` and channel count for a format the reader
/// infers lead the reader back to that format.
pub proof fn lemma_written_samples_infer_format(f: StandardImageFrameFormat)
    requires
        f == StandardImageFrameFormat::RAW8 || f == StandardImageFrameFormat::RAW16
            || f == StandardImageFrameFormat::RGB24 || f == StandardImageFrameFormat::RGB32,
    ensures
        infer_format(xisf_sample_format(f), xisf_channels(f) as u32) == Some(f),
{
    reveal_strlit("UInt8");
    reveal_strlit("UInt16");
    assert("UInt8"@ != "UInt16"@) by {
        assert("UInt8"@.len() != "UInt16"@.len());
    }
}

/// The writer's `sampleFormat` and channel count describe the frame's
/// pixels: channels times sample bytes is the format's bytes per pixel.
pub proof fn lemma_written_samples_fill_pixels(f: StandardImageFrameFormat)
    ensures
        xisf_channels(f) * (if xisf_sample_format(f) == "UInt8"@ { 1nat } else { 2nat }) == spec_bytes_per_pixel(f),
        xisf_channels(f) == channels_of(f),
{
    reveal_strlit("UInt8");
    reveal_strlit("UInt16");
    assert("UInt8"@ != "UInt16"@) by {
        assert("UInt8"@.len() != "UInt16"@.len());
    }
}

} // verus!
