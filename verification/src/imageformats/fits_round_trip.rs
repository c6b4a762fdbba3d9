//! What the FITS reader gives back of what the FITS writer wrote.
use vstd::prelude::*;
use vstd::utf8::{
    decode_utf8, encode_scalar, encode_utf8, encode_utf8_decode_utf8, encode_utf8_valid_utf8, is_char_boundary,
    is_char_boundary_iff_not_is_continuation_byte, valid_utf8,
};

use crate::imageformats::fits::{
    card_bytes, card_text, cards_bytes, end_card, escape_quotes, is_key_char, lemma_bool_value_text,
    lemma_decimal_len, lemma_escape_plain, lemma_fixed_value_text, lemma_int_value_text,
    lemma_name_value_text, lemma_pad_ascii, lemma_pow10_values, lemma_small_card, one_card,
    required_cards, spec_bitpix, spec_bzero, spec_image_axes, ten_billion, valid_header_key,
    value_text,
};
use crate::imageformats::fits::{block_padding, camera_data, fits_data, fits_file, pad_block};
use crate::imageformats::fits::{is_managed_key, optional_user_cards, truncate_bytes, user_cards, CardsOutcome};
use crate::imageformats::types::HeaderCard;
use crate::imageformats::fits_reader::{
    block_ceil, card_chunk, format_named, header_i64_spec, header_optional_u32_spec,
    fits_frame, header_u32_spec, lemma_first_index, lookup, parse_card_value, scan_cards, ScanView,
};
use crate::imageformats::types::frame_len;
use crate::imageformats::types::FitsValueView;
use crate::text::{
    all_ascii, ascii_bytes, decimal, first_index_of, is_whitespace, lemma_decimal_digits,
    lemma_parse_decimal, lemma_parse_signed_decimal,
    lemma_encode_ascii, lemma_trim_char_plain, lemma_trim_framed, lemma_trim_padded, pad_left,
    pad_right, signed_decimal, trim, trim_char,
};
use crate::types::imageformats::{is_wide_raw, spec_bytes_per_pixel, spec_format_name, StandardImageFrameFormat};
use crate::algos::images::channels_of;

verus! {

/// Facts about the bytes of 80 characters of ASCII text.
proof fn lemma_ascii_chunk(p: Seq<char>)
    requires
        p.len() == 80,
        all_ascii(p),
        (p[8] as u32) < 0x80,
    ensures
        ascii_bytes(p).len() == 80,
        encode_utf8(p) == ascii_bytes(p),
        valid_utf8(ascii_bytes(p)),
        decode_utf8(ascii_bytes(p)) == p,
        is_char_boundary(ascii_bytes(p), 8),
        decode_utf8(ascii_bytes(p).subrange(0, 8)) == p.subrange(0, 8),
{
    lemma_encode_ascii(p);
    encode_utf8_valid_utf8(p);
    encode_utf8_decode_utf8(p);
    let h = p.subrange(0, 8);
    assert(all_ascii(h)) by {
        assert forall|i: int| 0 <= i < h.len() implies (#[trigger] h[i] as u32) < 0x80 by {
            assert(h[i] == p[i]);
        }
    }
    lemma_encode_ascii(h);
    assert(ascii_bytes(p).subrange(0, 8) =~= ascii_bytes(h));
    encode_utf8_decode_utf8(h);
    let b = ascii_bytes(p);
    is_char_boundary_iff_not_is_continuation_byte(b, 8);
    let v = p[8] as u32;
    assert(v < 0x80 ==> (v as u8) < 0x80) by (bit_vector);
    assert(b[8] == v as u8);
}

/// Facts about the image of a card the writer emits for a valid keyword and
/// an ASCII value and comment.
#[verifier::spinoff_prover]
#[verifier::rlimit(60)]
pub(crate) proof fn lemma_card_chunk(key: Seq<char>, v: FitsValueView, comment: Seq<char>)
    requires
        valid_header_key(key),
        all_ascii(value_text(v)),
        value_text(v).len() <= 20,
        all_ascii(comment),
        comment.len() <= 47,
    ensures
        ({
            let b = one_card((key, v, comment));
            let p = pad_right(card_text(key, v, comment), 80, ' ');
            &&& b.len() == 80
            &&& valid_utf8(b)
            &&& is_char_boundary(b, 8)
            &&& decode_utf8(b) == p
            &&& trim(decode_utf8(b.subrange(0, 8))) == key
            &&& first_index_of(p, '=') == Some(8int)
        }),
{
    reveal(one_card);
    lemma_small_card(key, v, comment);
    let t = card_text(key, v, comment);
    let p = pad_right(t, 80, ' ');
    lemma_pad_ascii(t, 80, ' ', false);
    let kp = pad_right(key, 8, ' ');
    assert(kp.len() == 8);
    assert(t[8] == '=');
    assert(p[8] == t[8]);
    assert(p.subrange(0, 8) =~= kp) by {
        assert forall|i: int| 0 <= i < 8 implies p.subrange(0, 8)[i] == kp[i] by {
            assert(p[i] == t[i]);
            assert(t[i] == kp[i]);
        }
    }
    lemma_ascii_chunk(p);
    assert(is_key_char(key[0]));
    assert(is_key_char(key[key.len() - 1]));
    lemma_trim_padded(key, 8);
    assert forall|j: int| 0 <= j < 8 implies #[trigger] p[j] != '=' by {
        assert(p[j] == t[j]);
        assert(t[j] == kp[j]);
        if j < key.len() {
            assert(is_key_char(key[j]));
        }
    }
    lemma_first_index(p, '=', 8);
}

/// The value a card gives the reader: its value text stripped of its
/// leading spaces, then of quotes.
#[verifier::spinoff_prover]
#[verifier::rlimit(60)]
pub(crate) proof fn lemma_card_value(key: Seq<char>, v: FitsValueView, comment: Seq<char>, m: nat, core: Seq<char>)
    requires
        valid_header_key(key),
        all_ascii(value_text(v)),
        value_text(v).len() <= 20,
        all_ascii(comment),
        0 < comment.len() <= 47,
        value_text(v) == Seq::new(m, |_i: int| ' ') + core,
        core.len() > 0,
        !is_whitespace(core[0]),
        !is_whitespace(core.last()),
        forall|i: int| 0 <= i < value_text(v).len() ==> #[trigger] value_text(v)[i] != '/',
    ensures
        parse_card_value(pad_right(card_text(key, v, comment), 80, ' ')) == Some(
            trim_char(trim_char(trim_char(core, ' '), '"'), '\''),
        ),
{
    let vt = value_text(v);
    let t = card_text(key, v, comment);
    let p = pad_right(t, 80, ' ');
    assert(first_index_of(p, '=') == Some(8int) && t.len() <= 80) by {
        lemma_card_chunk(key, v, comment);
        lemma_small_card(key, v, comment);
    }
    let kp = pad_right(key, 8, ' ');
    assert(kp.len() == 8);
    let rest = p.subrange(9, p.len() as int);
    let s = (vt.len() + 2) as int;
    assert(t.len() == 13 + vt.len() + comment.len());
    assert forall|j: int| 0 <= j <= s implies #[trigger] rest[j] == t[9 + j] by {
        assert(p[9 + j] == t[9 + j]);
    }
    assert(rest[0] == ' ');
    assert forall|j: int| 1 <= j <= vt.len() implies #[trigger] rest[j] == vt[j - 1] by {
        assert(t[9 + j] == vt[j - 1]);
    }
    assert(rest[s - 1] == ' ');
    assert(rest[s] == '/');
    assert forall|j: int| 0 <= j < s implies #[trigger] rest[j] != '/' by {
        if 1 <= j <= vt.len() {
            assert(rest[j] == vt[j - 1]);
        }
    }
    lemma_first_index(rest, '/', s);
    assert(rest.subrange(0, s) =~= Seq::new((m + 1) as nat, |_i: int| ' ') + core + seq![' ']) by {
        let x = Seq::new((m + 1) as nat, |_i: int| ' ') + core + seq![' '];
        assert forall|j: int| 0 <= j < s implies rest.subrange(0, s)[j] == x[j] by {
            if 1 <= j <= vt.len() {
                assert(rest[j] == vt[j - 1]);
                assert(vt[j - 1] == (Seq::new(m, |_i: int| ' ') + core)[j - 1]);
            }
        }
    }
    lemma_trim_framed(core, (m + 1) as nat);
}

/// A card holding a `u32`: the reader gets its decimal rendering.
#[verifier::spinoff_prover]
#[verifier::rlimit(60)]
pub(crate) proof fn lemma_int_card(key: Seq<char>, n: u32, comment: Seq<char>)
    requires
        valid_header_key(key),
        all_ascii(comment),
        0 < comment.len() <= 47,
    ensures
        all_ascii(value_text(FitsValueView::Int(n as int))),
        value_text(FitsValueView::Int(n as int)).len() <= 20,
        parse_card_value(pad_right(card_text(key, FitsValueView::Int(n as int), comment), 80, ' '))
            == Some(decimal(n as nat)),
{
    lemma_pow10_values();
    lemma_decimal_len(n as nat, 10);
    lemma_decimal_digits(n as nat);
    let d = decimal(n as nat);
    let v = FitsValueView::Int(n as int);
    assert(signed_decimal(n as int) == d);
    lemma_pad_ascii(d, 20, ' ', true);
    let m = (20 - d.len()) as nat;
    assert(value_text(v) =~= Seq::new(m, |_i: int| ' ') + d);
    assert(crate::text::is_digit(d[0]));
    assert(crate::text::is_digit(d[d.len() - 1]));
    assert forall|i: int| 0 <= i < value_text(v).len() implies #[trigger] value_text(v)[i] != '/' by {
        if i >= m {
            assert(value_text(v)[i] == d[i - m]);
            assert(crate::text::is_digit(d[i - m]));
        }
    }
    lemma_card_value(key, v, comment, m, d);
    lemma_trim_char_plain(d, ' ');
    lemma_trim_char_plain(d, '"');
    lemma_trim_char_plain(d, '\'');
}

/// The `LVFMT` card: the reader gets the format name padded to eight
/// characters.
#[verifier::spinoff_prover]
#[verifier::rlimit(60)]
pub(crate) proof fn lemma_name_card(key: Seq<char>, f: StandardImageFrameFormat, comment: Seq<char>)
    requires
        valid_header_key(key),
        all_ascii(comment),
        0 < comment.len() <= 47,
    ensures
        all_ascii(value_text(FitsValueView::Str(spec_format_name(f)))),
        value_text(FitsValueView::Str(spec_format_name(f))).len() <= 20,
        parse_card_value(pad_right(card_text(key, FitsValueView::Str(spec_format_name(f)), comment), 80, ' '))
            == Some(pad_right(spec_format_name(f), 8, ' ')),
{
    let name = spec_format_name(f);
    let v = FitsValueView::Str(name);
    lemma_name_value_text(f);
    reveal_strlit("RAW8");
    reveal_strlit("RAW10");
    reveal_strlit("RAW12");
    reveal_strlit("RAW14");
    reveal_strlit("RAW16");
    reveal_strlit("RGB24");
    reveal_strlit("RGB32");
    let vt = value_text(v);
    let pn = pad_right(name, 8, ' ');
    assert(pn.len() == 8);
    assert(vt =~= Seq::new(0, |_i: int| ' ') + vt);
    assert(vt[0] == '\'');
    assert(vt[vt.len() - 1] == '\'');
    assert forall|i: int| 0 <= i < vt.len() implies #[trigger] vt[i] != '/' by {
        if 1 <= i <= 8 {
            assert(vt[i] == pn[i - 1]);
        }
    }
    lemma_card_value(key, v, comment, 0, vt);
    lemma_trim_char_plain(vt, ' ');
    lemma_trim_char_plain(vt, '"');
    assert(trim_char(vt, '\'') == pn) by {
        let q = crate::text::is_char('\'');
        assert(vt.drop_first()[0] == pn[0]);
        assert(pn[0] == name[0]);
        assert(crate::text::strip_start(vt, q) == crate::text::strip_start(vt.drop_first(), q));
        assert(crate::text::strip_start(vt.drop_first(), q) == vt.drop_first());
        let w = vt.drop_first();
        assert(w.last() == '\'');
        assert(w.drop_last() =~= pn);
        assert(pn[7] != '\'');
        assert(crate::text::strip_end(w, q) == crate::text::strip_end(pn, q));
    }
}

/// Card images of 80 bytes each, laid one after the other.
#[verifier::spinoff_prover]
#[verifier::rlimit(60)]
proof fn lemma_cards_len(cards: Seq<(Seq<char>, FitsValueView, Seq<char>)>)
    requires
        forall|i: int| 0 <= i < cards.len() ==> (#[trigger] one_card(cards[i])).len() == 80,
    ensures
        cards_bytes(cards).len() == 80 * cards.len(),
    decreases cards.len(),
{
    if cards.len() > 0 {
        let init = cards.drop_last();
        assert forall|i: int| 0 <= i < init.len() implies (#[trigger] one_card(init[i])).len() == 80 by {
            assert(init[i] == cards[i]);
        }
        lemma_cards_len(init);
        assert(one_card(cards[cards.len() - 1]).len() == 80);
    }
}

/// The image of card `k` sits at bytes `80 * k` to `80 * k + 80`.
#[verifier::spinoff_prover]
#[verifier::rlimit(60)]
proof fn lemma_card_at(cards: Seq<(Seq<char>, FitsValueView, Seq<char>)>, k: int)
    requires
        0 <= k < cards.len(),
        forall|i: int| 0 <= i < cards.len() ==> (#[trigger] one_card(cards[i])).len() == 80,
    ensures
        cards_bytes(cards).subrange(80 * k, 80 * k + 80) == one_card(cards[k]),
    decreases cards.len(),
{
    let init = cards.drop_last();
    assert forall|i: int| 0 <= i < init.len() implies (#[trigger] one_card(init[i])).len() == 80 by {
        assert(init[i] == cards[i]);
    }
    lemma_cards_len(init);
    let b = cards_bytes(cards);
    let last = one_card(cards[cards.len() - 1]);
    assert(last.len() == 80);
    assert(b == cards_bytes(init) + last);
    if k < init.len() {
        lemma_card_at(init, k);
        assert(init[k] == cards[k]);
        assert(b.subrange(80 * k, 80 * k + 80) =~= cards_bytes(init).subrange(80 * k, 80 * k + 80));
    } else {
        assert(b.subrange(80 * k, 80 * k + 80) =~= last);
    }
}

/// Facts about the `END` card.
proof fn lemma_end_chunk()
    ensures
        end_card().len() == 80,
        valid_utf8(end_card()),
        is_char_boundary(end_card(), 8),
        trim(decode_utf8(end_card().subrange(0, 8))) == "END"@,
{
    let e = seq!['E', 'N', 'D'];
    let p = pad_right(e, 80, ' ');
    assert(all_ascii(e));
    lemma_pad_ascii(e, 80, ' ', false);
    assert(p[8] == ' ');
    lemma_ascii_chunk(p);
    assert(p.subrange(0, 8) =~= pad_right(e, 8, ' '));
    lemma_trim_padded(e, 8);
    reveal_strlit("END");
}

/// The value the reader takes from a card.
pub open spec fn card_value_of(c: (Seq<char>, FitsValueView, Seq<char>)) -> Seq<char> {
    parse_card_value(pad_right(card_text(c.0, c.1, c.2), 80, ' '))->0
}

/// The required cards are well formed and none of them is `END`.
#[verifier::spinoff_prover]
#[verifier::rlimit(60)]
proof fn lemma_required_card(w: u32, h: u32, f: StandardImageFrameFormat, k: int)
    requires
        0 <= k < required_cards(w, h, f).len(),
    ensures
        ({
            let c = required_cards(w, h, f)[k];
            &&& valid_header_key(c.0)
            &&& all_ascii(value_text(c.1))
            &&& value_text(c.1).len() <= 20
            &&& all_ascii(c.2)
            &&& 0 < c.2.len() <= 47
            &&& c.0 != "END"@
        }),
{
    let cards = required_cards(w, h, f);
    let axes = spec_image_axes(w, h, f);
    reveal_strlit("END");
    if k == 0 {
        reveal_strlit("SIMPLE");
        reveal_strlit("file conforms to FITS standard");
        lemma_bool_value_text(true);
        assert(cards[0].0 == "SIMPLE"@);
        assert(valid_header_key("SIMPLE"@));
        assert(all_ascii("file conforms to FITS standard"@));
        assert("SIMPLE"@ != "END"@);
        assert(valid_header_key(cards[k].0));
        assert(all_ascii(value_text(cards[k].1)));
        assert(value_text(cards[k].1).len() <= 20);
        assert(all_ascii(cards[k].2));
        assert(0 < cards[k].2.len() <= 47);
        assert(cards[k].0 != "END"@);
    } else if k == 1 {
        reveal_strlit("BITPIX");
        reveal_strlit("bits per data value");
        assert(value_text(FitsValueView::Int(spec_bitpix(f))) == value_text(
            FitsValueView::Int((spec_bitpix(f) as u32) as int),
        ));
        lemma_int_value_text(spec_bitpix(f) as u32);
        assert(valid_header_key(cards[k].0));
        assert(all_ascii(value_text(cards[k].1)));
        assert(value_text(cards[k].1).len() <= 20);
        assert(all_ascii(cards[k].2));
        assert(0 < cards[k].2.len() <= 47);
        assert(cards[k].0 != "END"@);
    } else if k == 2 {
        reveal_strlit("NAXIS");
        reveal_strlit("number of data axes");
        lemma_int_value_text(axes.0);
        assert(valid_header_key(cards[k].0));
        assert(all_ascii(value_text(cards[k].1)));
        assert(value_text(cards[k].1).len() <= 20);
        assert(all_ascii(cards[k].2));
        assert(0 < cards[k].2.len() <= 47);
        assert(cards[k].0 != "END"@);
    } else if k == 3 {
        reveal_strlit("NAXIS1");
        reveal_strlit("axis 1 length");
        lemma_int_value_text(axes.1);
        assert(valid_header_key(cards[k].0));
        assert(all_ascii(value_text(cards[k].1)));
        assert(value_text(cards[k].1).len() <= 20);
        assert(all_ascii(cards[k].2));
        assert(0 < cards[k].2.len() <= 47);
        assert(cards[k].0 != "END"@);
    } else if k == 4 {
        reveal_strlit("NAXIS2");
        reveal_strlit("axis 2 length");
        lemma_int_value_text(axes.2);
        assert(valid_header_key(cards[k].0));
        assert(all_ascii(value_text(cards[k].1)));
        assert(value_text(cards[k].1).len() <= 20);
        assert(all_ascii(cards[k].2));
        assert(0 < cards[k].2.len() <= 47);
        assert(cards[k].0 != "END"@);
    } else if k == 5 {
        reveal_strlit("BZERO");
        reveal_strlit("data zero offset");
        lemma_fixed_value_text(spec_bzero(f));
        assert(valid_header_key(cards[k].0));
        assert(all_ascii(value_text(cards[k].1)));
        assert(value_text(cards[k].1).len() <= 20);
        assert(all_ascii(cards[k].2));
        assert(0 < cards[k].2.len() <= 47);
        assert(cards[k].0 != "END"@);
    } else if k == 6 {
        reveal_strlit("BSCALE");
        reveal_strlit("data scale factor");
        lemma_fixed_value_text(ten_billion());
        assert(valid_header_key(cards[k].0));
        assert(all_ascii(value_text(cards[k].1)));
        assert(value_text(cards[k].1).len() <= 20);
        assert(all_ascii(cards[k].2));
        assert(0 < cards[k].2.len() <= 47);
        assert(cards[k].0 != "END"@);
    } else if k == 7 {
        reveal_strlit("LVFMT");
        reveal_strlit("original lvast frame format");
        lemma_name_value_text(f);
        assert(valid_header_key(cards[k].0));
        assert(all_ascii(value_text(cards[k].1)));
        assert(value_text(cards[k].1).len() <= 20);
        assert(all_ascii(cards[k].2));
        assert(0 < cards[k].2.len() <= 47);
        assert(cards[k].0 != "END"@);
    } else if k == 8 {
        reveal_strlit("EXTEND");
        reveal_strlit("FITS dataset may contain extensions");
        lemma_bool_value_text(true);
        assert(valid_header_key(cards[k].0));
        assert(all_ascii(value_text(cards[k].1)));
        assert(value_text(cards[k].1).len() <= 20);
        assert(all_ascii(cards[k].2));
        assert(0 < cards[k].2.len() <= 47);
        assert(cards[k].0 != "END"@);
    } else {
        reveal_strlit("NAXIS3");
        reveal_strlit("axis 3 length");
        lemma_int_value_text(axes.3->0);
        assert(valid_header_key(cards[k].0));
        assert(all_ascii(value_text(cards[k].1)));
        assert(value_text(cards[k].1).len() <= 20);
        assert(all_ascii(cards[k].2));
        assert(0 < cards[k].2.len() <= 47);
        assert(cards[k].0 != "END"@);
    }
}

/// The entry the reader takes from card `k`.
pub open spec fn entry_at(bytes: Seq<u8>, k: nat) -> Seq<(Seq<char>, Seq<char>)> {
    let c = card_chunk(bytes, k);
    let key = trim(decode_utf8(c.subrange(0, 8)));
    match parse_card_value(decode_utf8(c)) {
        Some(v) => seq![(key, v)],
        None => Seq::empty(),
    }
}

/// The entries of cards `k` to `n`.
pub open spec fn scan_entries(bytes: Seq<u8>, k: nat, n: nat) -> Seq<(Seq<char>, Seq<char>)>
    decreases n - k,
{
    if k >= n {
        Seq::empty()
    } else {
        entry_at(bytes, k) + scan_entries(bytes, k + 1, n)
    }
}

/// A card the reader takes as a header card other than `END`.
pub open spec fn good_card(bytes: Seq<u8>, k: nat) -> bool {
    let c = card_chunk(bytes, k);
    valid_utf8(c) && is_char_boundary(c, 8)
}

proof fn lemma_scan(bytes: Seq<u8>, k: nat, n: nat)
    requires
        k <= n,
        80 * n + 80 <= bytes.len(),
        forall|j: nat|
            k <= j < n ==> #[trigger] good_card(bytes, j) && trim(
                decode_utf8(card_chunk(bytes, j).subrange(0, 8)),
            ) != "END"@,
        good_card(bytes, n),
        trim(decode_utf8(card_chunk(bytes, n).subrange(0, 8))) == "END"@,
    ensures
        scan_cards(bytes, k) == ScanView::End(block_ceil(80 * n + 80), scan_entries(bytes, k, n)),
    decreases n - k,
{
    if k < n {
        assert(good_card(bytes, k));
        lemma_scan(bytes, k + 1, n);
    }
}

proof fn lemma_entries(bytes: Seq<u8>, k: nat, n: nat, es: Seq<(Seq<char>, Seq<char>)>)
    requires
        k <= n,
        es.len() == n,
        forall|j: nat| k <= j < n ==> #[trigger] entry_at(bytes, j) == seq![es[j as int]],
    ensures
        scan_entries(bytes, k, n) == es.subrange(k as int, n as int),
    decreases n - k,
{
    if k < n {
        lemma_entries(bytes, k + 1, n, es);
        assert(entry_at(bytes, k) == seq![es[k as int]]);
        assert(seq![es[k as int]] + es.subrange((k + 1) as int, n as int) =~= es.subrange(k as int, n as int));
    } else {
        assert(es.subrange(k as int, n as int) =~= Seq::<(Seq<char>, Seq<char>)>::empty());
    }
}

proof fn lemma_lookup_last(es: Seq<(Seq<char>, Seq<char>)>, key: Seq<char>, j: int)
    requires
        0 <= j < es.len(),
        es[j].0 == key,
        forall|i: int| j < i < es.len() ==> (#[trigger] es[i]).0 != key,
    ensures
        lookup(es, key) == Some(es[j].1),
    decreases es.len(),
{
    if j < es.len() - 1 {
        assert(es[es.len() - 1].0 != key);
        let init = es.drop_last();
        assert forall|i: int| j < i < init.len() implies (#[trigger] init[i]).0 != key by {
            assert(init[i] == es[i]);
        }
        lemma_lookup_last(init, key, j);
    }
}

proof fn lemma_lookup_none(es: Seq<(Seq<char>, Seq<char>)>, key: Seq<char>)
    requires
        forall|i: int| 0 <= i < es.len() ==> (#[trigger] es[i]).0 != key,
    ensures
        lookup(es, key) is None,
    decreases es.len(),
{
    if es.len() > 0 {
        assert(es[es.len() - 1].0 != key);
        let init = es.drop_last();
        assert forall|i: int| 0 <= i < init.len() implies (#[trigger] init[i]).0 != key by {
            assert(init[i] == es[i]);
        }
        lemma_lookup_none(init, key);
    }
}

/// The reader's entries for the required cards.
pub open spec fn required_entries(w: u32, h: u32, f: StandardImageFrameFormat) -> Seq<(Seq<char>, Seq<char>)> {
    let cards = required_cards(w, h, f);
    Seq::new(cards.len(), |i: int| (cards[i].0, card_value_of(cards[i])))
}

/// What the reader takes from a required card sitting at card `j` of `file`.
#[verifier::spinoff_prover]
#[verifier::rlimit(60)]
proof fn lemma_file_card(w: u32, h: u32, f: StandardImageFrameFormat, file: Seq<u8>, j: nat)
    requires
        j < required_cards(w, h, f).len(),
        80 * j + 80 <= file.len(),
        card_chunk(file, j) == one_card(required_cards(w, h, f)[j as int]),
    ensures
        good_card(file, j),
        trim(decode_utf8(card_chunk(file, j).subrange(0, 8))) != "END"@,
        entry_at(file, j) == seq![required_entries(w, h, f)[j as int]],
{
    let c = required_cards(w, h, f)[j as int];
    lemma_required_card(w, h, f, j as int);
    lemma_card_chunk(c.0, c.1, c.2);
}

/// The keywords of the required cards differ where the reader needs it.
#[verifier::spinoff_prover]
#[verifier::rlimit(60)]
proof fn lemma_keys_differ()
    ensures
        "NAXIS"@ != "NAXIS1"@, "NAXIS"@ != "NAXIS2"@, "NAXIS"@ != "NAXIS3"@, "NAXIS"@ != "BZERO"@,
        "NAXIS"@ != "BSCALE"@, "NAXIS"@ != "LVFMT"@, "NAXIS"@ != "EXTEND"@,
        "BITPIX"@ != "NAXIS"@, "BITPIX"@ != "NAXIS1"@, "BITPIX"@ != "NAXIS2"@, "BITPIX"@ != "NAXIS3"@,
        "BITPIX"@ != "BZERO"@, "BITPIX"@ != "BSCALE"@, "BITPIX"@ != "LVFMT"@, "BITPIX"@ != "EXTEND"@,
        "NAXIS1"@ != "NAXIS2"@, "NAXIS1"@ != "NAXIS3"@, "NAXIS1"@ != "BZERO"@, "NAXIS1"@ != "BSCALE"@,
        "NAXIS1"@ != "LVFMT"@, "NAXIS1"@ != "EXTEND"@,
        "NAXIS2"@ != "NAXIS3"@, "NAXIS2"@ != "BZERO"@, "NAXIS2"@ != "BSCALE"@, "NAXIS2"@ != "LVFMT"@,
        "NAXIS2"@ != "EXTEND"@,
        "LVFMT"@ != "EXTEND"@, "LVFMT"@ != "NAXIS3"@,
        "NAXIS3"@ != "SIMPLE"@, "NAXIS3"@ != "BITPIX"@, "NAXIS3"@ != "BZERO"@, "NAXIS3"@ != "BSCALE"@,
        "NAXIS3"@ != "EXTEND"@,
{
    reveal_strlit("SIMPLE");
    reveal_strlit("BITPIX");
    reveal_strlit("NAXIS");
    reveal_strlit("NAXIS1");
    reveal_strlit("NAXIS2");
    reveal_strlit("NAXIS3");
    reveal_strlit("BZERO");
    reveal_strlit("BSCALE");
    reveal_strlit("LVFMT");
    reveal_strlit("EXTEND");
    assert("NAXIS"@.len() == 5);
    assert("NAXIS1"@.len() == 6);
    assert("NAXIS2"@.len() == 6);
    assert("NAXIS3"@.len() == 6);
    assert("BITPIX"@.len() == 6);
    assert("EXTEND"@.len() == 6);
    assert("BSCALE"@.len() == 6);
    assert("SIMPLE"@.len() == 6);
    assert("LVFMT"@.len() == 5);
    assert("BZERO"@.len() == 5);
    assert("NAXIS1"@[5] != "NAXIS2"@[5]);
    assert("NAXIS1"@[5] != "NAXIS3"@[5]);
    assert("NAXIS2"@[5] != "NAXIS3"@[5]);
    assert("NAXIS1"@[0] != "BSCALE"@[0]);
    assert("NAXIS1"@[0] != "EXTEND"@[0]);
    assert("NAXIS2"@[0] != "BSCALE"@[0]);
    assert("NAXIS2"@[0] != "EXTEND"@[0]);
    assert("NAXIS3"@[0] != "BSCALE"@[0]);
    assert("NAXIS3"@[0] != "EXTEND"@[0]);
    assert("NAXIS3"@[0] != "SIMPLE"@[0]);
    assert("NAXIS3"@[0] != "BITPIX"@[0]);
    assert("BITPIX"@[0] != "NAXIS1"@[0]);
    assert("BITPIX"@[0] != "NAXIS2"@[0]);
    assert("BITPIX"@[1] != "BSCALE"@[1]);
    assert("BITPIX"@[0] != "EXTEND"@[0]);
    assert("NAXIS"@[0] != "BZERO"@[0]);
    assert("NAXIS"@[0] != "LVFMT"@[0]);
    assert("LVFMT"@[0] != "NAXIS3"@[0]);
}

/// The names the reader matches are those the writer writes.
#[verifier::spinoff_prover]
#[verifier::rlimit(60)]
proof fn lemma_format_named(f: StandardImageFrameFormat)
    ensures
        format_named(pad_right(spec_format_name(f), 8, ' ')) == Some(f),
{
    reveal_strlit("RAW8");
    reveal_strlit("RAW10");
    reveal_strlit("RAW12");
    reveal_strlit("RAW14");
    reveal_strlit("RAW16");
    reveal_strlit("RGB24");
    reveal_strlit("RGB32");
    let name = spec_format_name(f);
    lemma_trim_padded(name, 8);
    assert("RAW10"@[4] != "RAW12"@[4]);
    assert("RAW10"@[4] != "RAW14"@[4]);
    assert("RAW10"@[4] != "RAW16"@[4]);
    assert("RAW12"@[4] != "RAW14"@[4]);
    assert("RAW12"@[4] != "RAW16"@[4]);
    assert("RAW14"@[4] != "RAW16"@[4]);
    assert("RAW10"@[1] != "RGB24"@[1]);
    assert("RAW12"@[1] != "RGB24"@[1]);
    assert("RAW14"@[1] != "RGB24"@[1]);
    assert("RAW16"@[1] != "RGB24"@[1]);
    assert("RGB24"@[3] != "RGB32"@[3]);
    assert("RAW10"@[1] != "RGB32"@[1]);
    assert("RAW12"@[1] != "RGB32"@[1]);
    assert("RAW14"@[1] != "RGB32"@[1]);
    assert("RAW16"@[1] != "RGB32"@[1]);
}

/// A `u32` header the writer puts at card `j`, read back.
#[verifier::spinoff_prover]
#[verifier::rlimit(60)]
proof fn lemma_u32_header(w: u32, h: u32, f: StandardImageFrameFormat, j: int, n: u32)
    requires
        0 <= j < required_cards(w, h, f).len(),
        required_cards(w, h, f)[j].1 == FitsValueView::Int(n as int),
        valid_header_key(required_cards(w, h, f)[j].0),
        all_ascii(required_cards(w, h, f)[j].2),
        0 < required_cards(w, h, f)[j].2.len() <= 47,
        forall|i: int|
            j < i < required_cards(w, h, f).len() ==> (#[trigger] required_cards(w, h, f)[i]).0
                != required_cards(w, h, f)[j].0,
    ensures
        header_u32_spec(required_entries(w, h, f), required_cards(w, h, f)[j].0) == Some(n),
        header_optional_u32_spec(required_entries(w, h, f), required_cards(w, h, f)[j].0) == Some(
            Some(n),
        ),
        header_i64_spec(required_entries(w, h, f), required_cards(w, h, f)[j].0) == Some(n as i64),
{
    let cards = required_cards(w, h, f);
    let es = required_entries(w, h, f);
    let c = cards[j];
    lemma_int_card(c.0, n, c.2);
    lemma_parse_decimal(n as nat);
    lemma_parse_signed_decimal(n as int);
    assert(signed_decimal(n as int) == decimal(n as nat));
    assert forall|i: int| j < i < es.len() implies (#[trigger] es[i]).0 != c.0 by {
        assert(es[i].0 == cards[i].0);
    }
    lemma_lookup_last(es, c.0, j);
}

/// The headers the reader needs, as it finds them among the required cards.
proof fn lemma_required_headers(w: u32, h: u32, f: StandardImageFrameFormat)
    ensures
        ({
            let es = required_entries(w, h, f);
            let axes = spec_image_axes(w, h, f);
            &&& header_u32_spec(es, "NAXIS"@) == Some(axes.0)
            &&& header_u32_spec(es, "NAXIS1"@) == Some(axes.1)
            &&& header_u32_spec(es, "NAXIS2"@) == Some(axes.2)
            &&& header_optional_u32_spec(es, "NAXIS3"@) == Some(axes.3)
            &&& header_i64_spec(es, "BITPIX"@) == Some(spec_bitpix(f) as i64)
            &&& lookup(es, "LVFMT"@) == Some(pad_right(spec_format_name(f), 8, ' '))
        }),
{
    lemma_header_naxis(w, h, f);
    lemma_header_naxis1(w, h, f);
    lemma_header_naxis2(w, h, f);
    lemma_header_naxis3(w, h, f);
    lemma_header_bitpix(w, h, f);
    lemma_header_lvfmt(w, h, f);
}

#[verifier::spinoff_prover]
#[verifier::rlimit(60)]
proof fn lemma_header_naxis(w: u32, h: u32, f: StandardImageFrameFormat)
    ensures
        header_u32_spec(required_entries(w, h, f), "NAXIS"@) == Some(spec_image_axes(w, h, f).0),
{
    let axes = spec_image_axes(w, h, f);
    lemma_keys_differ();
    assert(valid_header_key("NAXIS"@) && all_ascii("number of data axes"@) && "number of data axes"@.len() == 19) by {
        reveal_strlit("NAXIS");
        reveal_strlit("number of data axes");
    }
    lemma_u32_header(w, h, f, 2, axes.0);
}

#[verifier::spinoff_prover]
#[verifier::rlimit(60)]
proof fn lemma_header_naxis1(w: u32, h: u32, f: StandardImageFrameFormat)
    ensures
        header_u32_spec(required_entries(w, h, f), "NAXIS1"@) == Some(spec_image_axes(w, h, f).1),
{
    let axes = spec_image_axes(w, h, f);
    lemma_keys_differ();
    assert(valid_header_key("NAXIS1"@) && all_ascii("axis 1 length"@) && "axis 1 length"@.len() == 13) by {
        reveal_strlit("NAXIS1");
        reveal_strlit("axis 1 length");
    }
    lemma_u32_header(w, h, f, 3, axes.1);
}

#[verifier::spinoff_prover]
#[verifier::rlimit(60)]
proof fn lemma_header_naxis2(w: u32, h: u32, f: StandardImageFrameFormat)
    ensures
        header_u32_spec(required_entries(w, h, f), "NAXIS2"@) == Some(spec_image_axes(w, h, f).2),
{
    let axes = spec_image_axes(w, h, f);
    lemma_keys_differ();
    assert(valid_header_key("NAXIS2"@) && all_ascii("axis 2 length"@) && "axis 2 length"@.len() == 13) by {
        reveal_strlit("NAXIS2");
        reveal_strlit("axis 2 length");
    }
    lemma_u32_header(w, h, f, 4, axes.2);
}

#[verifier::spinoff_prover]
#[verifier::rlimit(60)]
proof fn lemma_header_bitpix(w: u32, h: u32, f: StandardImageFrameFormat)
    ensures
        header_i64_spec(required_entries(w, h, f), "BITPIX"@) == Some(spec_bitpix(f) as i64),
{
    lemma_keys_differ();
    assert(valid_header_key("BITPIX"@) && all_ascii("bits per data value"@) && "bits per data value"@.len()
        == 19) by {
        reveal_strlit("BITPIX");
        reveal_strlit("bits per data value");
    }
    let b = spec_bitpix(f) as u32;
    assert(FitsValueView::Int(spec_bitpix(f)) == FitsValueView::Int(b as int));
    lemma_u32_header(w, h, f, 1, b);
}

#[verifier::spinoff_prover]
#[verifier::rlimit(60)]
proof fn lemma_header_lvfmt(w: u32, h: u32, f: StandardImageFrameFormat)
    ensures
        lookup(required_entries(w, h, f), "LVFMT"@) == Some(pad_right(spec_format_name(f), 8, ' ')),
{
    let es = required_entries(w, h, f);
    let cards = required_cards(w, h, f);
    lemma_keys_differ();
    assert(valid_header_key("LVFMT"@) && all_ascii("original lvast frame format"@)
        && "original lvast frame format"@.len() == 27) by {
        reveal_strlit("LVFMT");
        reveal_strlit("original lvast frame format");
    }
    lemma_name_card("LVFMT"@, f, "original lvast frame format"@);
    assert forall|i: int| 7 < i < es.len() implies (#[trigger] es[i]).0 != "LVFMT"@ by {
        assert(es[i].0 == cards[i].0);
    }
    lemma_lookup_last(es, "LVFMT"@, 7);
}

#[verifier::spinoff_prover]
#[verifier::rlimit(60)]
proof fn lemma_header_naxis3(w: u32, h: u32, f: StandardImageFrameFormat)
    ensures
        header_optional_u32_spec(required_entries(w, h, f), "NAXIS3"@) == Some(spec_image_axes(w, h, f).3),
{
    let es = required_entries(w, h, f);
    let cards = required_cards(w, h, f);
    let axes = spec_image_axes(w, h, f);
    lemma_keys_differ();
    match axes.3 {
        Some(n3) => {
            assert(valid_header_key("NAXIS3"@) && all_ascii("axis 3 length"@) && "axis 3 length"@.len()
                == 13) by {
                reveal_strlit("NAXIS3");
                reveal_strlit("axis 3 length");
            }
            lemma_u32_header(w, h, f, 9, n3);
        },
        None => {
            assert forall|i: int| 0 <= i < es.len() implies (#[trigger] es[i]).0 != "NAXIS3"@ by {
                assert(es[i].0 == cards[i].0);
            }
            lemma_lookup_none(es, "NAXIS3"@);
        },
    }
}

/// Reading FITS pixel bytes undoes writing them, for camera data of whole
/// 16-bit samples.
pub proof fn lemma_pixel_round_trip(data: Seq<u8>, f: StandardImageFrameFormat)
    requires
        is_wide_raw(f) ==> data.len() % 2 == 0,
    ensures
        camera_data(fits_data(data, f), f) == data,
{
    if is_wide_raw(f) {
        let d = fits_data(data, f);
        assert(d.len() == data.len());
        assert forall|i: int| 0 <= i < data.len() implies #[trigger] camera_data(d, f)[i] == data[i] by {
            if i % 2 == 0 {
                assert(camera_data(d, f)[i] == d[i + 1]);
                assert(d[i + 1] == data[i]);
            } else {
                let x = data[i];
                assert((x ^ 0x80u8) ^ 0x80u8 == x) by (bit_vector);
                assert(d[i - 1] == data[i] ^ 0x80u8);
            }
        }
        assert(camera_data(d, f) =~= data);
    }
}

// ---------------------------------------------------------------------------
// User header cards
// ---------------------------------------------------------------------------

/// The text a card keeps when cut to 80 bytes is ASCII (so the cut falls
/// on a character boundary and the card takes exactly 80 bytes).
pub open spec fn ascii_cut(text: Seq<char>) -> bool {
    truncate_bytes(text, 80) matches Some(t) && all_ascii(t)
}

/// A user header card the reader passes over: one whose keyword the writer
/// manages (it skips the card), or one with a valid keyword other than `END`
/// whose text is ASCII.
pub open spec fn passes_through(c: HeaderCard) -> bool {
    ||| is_managed_key(c.key@)
    ||| (valid_header_key(c.key@) && c.key@ != "END"@ && ascii_cut(card_text(c.key@, c.value@, c.comment@)))
}

/// Every card of optional user headers passes through the reader.
pub open spec fn all_pass_through(hs: Option<Vec<HeaderCard>>) -> bool {
    match hs {
        Some(v) => forall|i: int| 0 <= i < v@.len() ==> passes_through(#[trigger] v@[i]),
        None => true,
    }
}

/// The user cards the writer emits, as `(keyword, value, comment)`, in order.
pub open spec fn kept_cards(hs: Seq<HeaderCard>) -> Seq<(Seq<char>, FitsValueView, Seq<char>)>
    decreases hs.len(),
{
    if hs.len() == 0 {
        Seq::empty()
    } else {
        let rest = kept_cards(hs.drop_first());
        if is_managed_key(hs[0].key@) {
            rest
        } else {
            seq![(hs[0].key@, hs[0].value@, hs[0].comment@)] + rest
        }
    }
}

/// A user card as the writer emits it under [`passes_through`].
pub open spec fn plain_card(c: (Seq<char>, FitsValueView, Seq<char>)) -> bool {
    &&& valid_header_key(c.0)
    &&& !is_managed_key(c.0)
    &&& c.0 != "END"@
    &&& ascii_cut(card_text(c.0, c.1, c.2))
}

proof fn lemma_cards_bytes_append(
    a: Seq<(Seq<char>, FitsValueView, Seq<char>)>,
    b: Seq<(Seq<char>, FitsValueView, Seq<char>)>,
)
    ensures
        cards_bytes(a + b) == cards_bytes(a) + cards_bytes(b),
    decreases b.len(),
{
    if b.len() == 0 {
        assert(a + b =~= a);
        assert(cards_bytes(a) + Seq::<u8>::empty() =~= cards_bytes(a));
    } else {
        assert((a + b).drop_last() =~= a + b.drop_last());
        assert((a + b).last() == b.last());
        lemma_cards_bytes_append(a, b.drop_last());
        assert(cards_bytes(a) + cards_bytes(b.drop_last()) + one_card(b.last()) =~= cards_bytes(a) + (
        cards_bytes(b.drop_last()) + one_card(b.last())));
    }
}

/// What cutting text to `n` bytes keeps: a prefix of the text, of at most
/// `n` bytes, holding at least the first `k` characters when these are
/// ASCII and `k <= n`.
proof fn lemma_truncate_prefix(s: Seq<char>, n: nat, k: nat)
    requires
        truncate_bytes(s, n) is Some,
        k <= n,
        k <= s.len(),
        forall|i: int| 0 <= i < k ==> (#[trigger] s[i] as u32) < 0x80,
    ensures
        ({
            let t = truncate_bytes(s, n)->0;
            &&& t.len() <= s.len()
            &&& t == s.take(t.len() as int)
            &&& encode_utf8(t).len() <= n
            &&& t.len() >= k
        }),
    decreases s.len(),
{
    let t = truncate_bytes(s, n)->0;
    if s.len() == 0 {
        assert(s.take(0) =~= t);
    } else {
        let w = encode_scalar(s[0] as u32).len();
        let d = s.drop_first();
        if w <= n {
            let k2: nat = if k > 0 { (k - 1) as nat } else { 0 };
            assert forall|i: int| 0 <= i < k2 implies (#[trigger] d[i] as u32) < 0x80 by {
                assert(d[i] == s[i + 1]);
            }
            if k > 0 {
                assert((s[0] as u32) < 0x80);
                assert(w == 1);
            }
            lemma_truncate_prefix(d, (n - w) as nat, k2);
            let t2 = truncate_bytes(d, (n - w) as nat)->0;
            assert(t == seq![s[0]] + t2);
            assert(t =~= s.take(t.len() as int));
            assert(t[0] == s[0]);
            assert(t.drop_first() =~= t2);
            assert(encode_utf8(t) == encode_scalar(t[0] as u32) + encode_utf8(t.drop_first()));
        } else {
            assert(n == 0);
            assert(t =~= Seq::<char>::empty());
            assert(s.take(0) =~= t);
            if k > 0 {
                assert((s[0] as u32) < 0x80);
                assert(w == 1);
            }
        }
    }
}

/// Facts about the image of a user card with a valid keyword whose text,
/// cut to 80 bytes, is ASCII.
#[verifier::spinoff_prover]
#[verifier::rlimit(60)]
proof fn lemma_ascii_card(c: (Seq<char>, FitsValueView, Seq<char>))
    requires
        valid_header_key(c.0),
        ascii_cut(card_text(c.0, c.1, c.2)),
    ensures
        card_bytes(card_text(c.0, c.1, c.2)) == Some(one_card(c)),
        one_card(c).len() == 80,
        valid_utf8(one_card(c)),
        is_char_boundary(one_card(c), 8),
        trim(decode_utf8(one_card(c).subrange(0, 8))) == c.0,
{
    reveal(one_card);
    let key = c.0;
    let t = card_text(c.0, c.1, c.2);
    let kp = pad_right(key, 8, ' ');
    assert(kp.len() == 8);
    assert(t.len() >= 10);
    assert(t[8] == '=');
    assert forall|i: int| 0 <= i < 10 implies (#[trigger] t[i] as u32) < 0x80 by {
        if i < 8 {
            assert(t[i] == kp[i]);
            if i < key.len() {
                assert(is_key_char(key[i]));
            }
        }
    }
    lemma_truncate_prefix(t, 80, 10);
    let u = truncate_bytes(t, 80)->0;
    assert(all_ascii(u));
    lemma_encode_ascii(u);
    assert(u.len() <= 80);
    let p = pad_right(u, 80, ' ');
    lemma_pad_ascii(u, 80, ' ', false);
    assert(p.len() == 80);
    assert(p[8] == u[8]);
    assert(u[8] == t[8]);
    assert(p.subrange(0, 8) =~= kp) by {
        assert forall|i: int| 0 <= i < 8 implies p.subrange(0, 8)[i] == kp[i] by {
            assert(p[i] == u[i]);
            assert(u[i] == t[i]);
            assert(t[i] == kp[i]);
        }
    }
    lemma_ascii_chunk(p);
    assert(is_key_char(key[0]));
    assert(is_key_char(key[key.len() - 1]));
    lemma_trim_padded(key, 8);
}

/// The bytes the writer emits for user cards that all pass through the
/// reader, and the shape of each emitted card.
proof fn lemma_user_bytes(hs: Seq<HeaderCard>)
    requires
        forall|i: int| 0 <= i < hs.len() ==> passes_through(#[trigger] hs[i]),
    ensures
        user_cards(hs) == CardsOutcome::Bytes(cards_bytes(kept_cards(hs))),
        forall|i: int| 0 <= i < kept_cards(hs).len() ==> plain_card(#[trigger] kept_cards(hs)[i]),
    decreases hs.len(),
{
    if hs.len() == 0 {
        assert(cards_bytes(Seq::<(Seq<char>, FitsValueView, Seq<char>)>::empty()) == Seq::<u8>::empty());
    } else {
        let d = hs.drop_first();
        assert forall|i: int| 0 <= i < d.len() implies passes_through(#[trigger] d[i]) by {
            assert(d[i] == hs[i + 1]);
        }
        lemma_user_bytes(d);
        let h = hs[0];
        assert(passes_through(hs[0]));
        if !is_managed_key(h.key@) {
            let c = (h.key@, h.value@, h.comment@);
            lemma_ascii_card(c);
            let rest = kept_cards(d);
            assert(kept_cards(hs) == seq![c] + rest);
            lemma_cards_bytes_append(seq![c], rest);
            let e = Seq::<(Seq<char>, FitsValueView, Seq<char>)>::empty();
            assert(seq![c].drop_last() =~= e);
            assert(seq![c].last() == c);
            assert(cards_bytes(e) == Seq::<u8>::empty());
            assert(cards_bytes(seq![c]) == cards_bytes(e) + one_card(c));
            assert(cards_bytes(seq![c]) =~= one_card(c));
            assert forall|i: int| 0 <= i < kept_cards(hs).len() implies plain_card(#[trigger] kept_cards(hs)[i]) by {
                if i > 0 {
                    assert(kept_cards(hs)[i] == rest[i - 1]);
                }
            }
        }
    }
}

/// The user cards the writer emits for optional user headers.
pub open spec fn kept_of(hs: Option<Vec<HeaderCard>>) -> Seq<(Seq<char>, FitsValueView, Seq<char>)> {
    match hs {
        Some(v) => kept_cards(v@),
        None => Seq::empty(),
    }
}

proof fn lemma_optional_user_bytes(hs: Option<Vec<HeaderCard>>)
    requires
        all_pass_through(hs),
    ensures
        optional_user_cards(hs) == CardsOutcome::Bytes(cards_bytes(kept_of(hs))),
        forall|i: int| 0 <= i < kept_of(hs).len() ==> plain_card(#[trigger] kept_of(hs)[i]),
{
    match hs {
        Some(v) => {
            lemma_user_bytes(v@);
        },
        None => {
            assert(cards_bytes(Seq::<(Seq<char>, FitsValueView, Seq<char>)>::empty()) == Seq::<u8>::empty());
        },
    }
}

/// `n` plus its padding to the FITS block size is `n` rounded up to a block.
proof fn lemma_block_ceil(n: nat)
    ensures
        n + block_padding(n) == block_ceil(n),
{
    let q = n / 2880;
    let r = n % 2880;
    assert(n == 2880 * q + r);
    if r == 0 {
        assert((n + 2879) / 2880 == q);
    } else {
        assert((n + 2879) / 2880 == q + 1);
    }
}

/// The required cards, the user cards, the `END` card and the pixel data, as
/// the writer lays them out.
#[verifier::spinoff_prover]
#[verifier::rlimit(80)]
proof fn lemma_file_layout_cards(
    w: u32,
    h: u32,
    f: StandardImageFrameFormat,
    data: Seq<u8>,
    hs: Option<Vec<HeaderCard>>,
)
    requires
        data.len() == frame_len(w, h, f),
        all_pass_through(hs),
    ensures
        fits_file(w, h, f, data, hs) is Some,
        forall|i: int| 0 <= i < kept_of(hs).len() ==> plain_card(#[trigger] kept_of(hs)[i]),
        ({
            let file = fits_file(w, h, f, data, hs)->0;
            let all = required_cards(w, h, f) + kept_of(hs);
            let n = all.len();
            let off = block_ceil(80 * n + 80);
            &&& 9 <= required_cards(w, h, f).len() <= 10
            &&& forall|k: nat| k < n ==> #[trigger] card_chunk(file, k) == one_card(all[k as int])
            &&& card_chunk(file, n) == end_card()
            &&& 80 * n + 80 <= off
            &&& off + data.len() <= file.len()
            &&& file.subrange(off as int, (off + data.len()) as int) == fits_data(data, f)
        }),
{
    lemma_optional_user_bytes(hs);
    let req = required_cards(w, h, f);
    let kept = kept_of(hs);
    let all = req + kept;
    let n = all.len();
    assert(9 <= req.len() <= 10);
    assert forall|i: int| 0 <= i < n implies (#[trigger] one_card(all[i])).len() == 80 by {
        if i < req.len() {
            assert(all[i] == req[i]);
            lemma_required_card(w, h, f, i);
            lemma_card_chunk(req[i].0, req[i].1, req[i].2);
        } else {
            assert(all[i] == kept[i - req.len()]);
            assert(plain_card(kept[i - req.len()]));
            lemma_ascii_card(kept[i - req.len()]);
        }
    }
    lemma_cards_len(all);
    lemma_cards_bytes_append(req, kept);
    lemma_end_chunk();
    let hb = cards_bytes(all);
    let a = cards_bytes(req) + cards_bytes(kept) + end_card();
    assert(a =~= hb + end_card());
    assert(a.len() == 80 * n + 80);
    let pa = pad_block(a);
    lemma_block_ceil(a.len());
    let off = block_ceil(80 * n + 80);
    assert(pa.len() == off);
    let d = fits_data(data, f);
    assert(d.len() == data.len()) by {
        if is_wide_raw(f) {
            let t = w as int * h as int;
            assert(data.len() == t * 2);
        }
    }
    let b = pa + d;
    let file = pad_block(b);
    assert(fits_file(w, h, f, data, hs) == Some(file));
    assert forall|k: nat| k < n implies #[trigger] card_chunk(file, k) == one_card(all[k as int]) by {
        lemma_card_at(all, k as int);
        assert(card_chunk(file, k) =~= hb.subrange(80 * k as int, 80 * k as int + 80));
    }
    assert(card_chunk(file, n) =~= end_card());
    assert(file.subrange(off as int, (off + data.len()) as int) =~= d);
}

/// The entries of cards `k` to `n` are those of cards `k` to `m` followed by
/// those of cards `m` to `n`.
proof fn lemma_scan_entries_split(bytes: Seq<u8>, k: nat, m: nat, n: nat)
    requires
        k <= m <= n,
    ensures
        scan_entries(bytes, k, n) == scan_entries(bytes, k, m) + scan_entries(bytes, m, n),
    decreases m - k,
{
    if k < m {
        lemma_scan_entries_split(bytes, k + 1, m, n);
        assert(entry_at(bytes, k) + (scan_entries(bytes, k + 1, m) + scan_entries(bytes, m, n)) =~= (entry_at(
            bytes,
            k,
        ) + scan_entries(bytes, k + 1, m)) + scan_entries(bytes, m, n));
    } else {
        assert(Seq::<(Seq<char>, Seq<char>)>::empty() + scan_entries(bytes, m, n) =~= scan_entries(bytes, m, n));
    }
}

/// No entry of cards `k` to `n` has a managed keyword when no card does.
proof fn lemma_entries_unmanaged(bytes: Seq<u8>, k: nat, n: nat)
    requires
        forall|j: nat| k <= j < n ==> !is_managed_key(#[trigger] trim(decode_utf8(card_chunk(bytes, j).subrange(0, 8)))),
    ensures
        forall|i: int| 0 <= i < scan_entries(bytes, k, n).len() ==> !is_managed_key(#[trigger] scan_entries(bytes, k, n)[i].0),
    decreases n - k,
{
    if k < n {
        lemma_entries_unmanaged(bytes, k + 1, n);
        let e = entry_at(bytes, k);
        let r = scan_entries(bytes, k + 1, n);
        assert(!is_managed_key(trim(decode_utf8(card_chunk(bytes, k).subrange(0, 8)))));
        assert forall|i: int| 0 <= i < (e + r).len() implies !is_managed_key(#[trigger] (e + r)[i].0) by {
            if i < e.len() {
                assert((e + r)[i] == e[i]);
            } else {
                assert((e + r)[i] == r[i - e.len()]);
            }
        }
    }
}

/// Reading a header made of the required cards, user cards and `END`.
#[verifier::spinoff_prover]
#[verifier::rlimit(80)]
proof fn lemma_file_scan_cards(
    w: u32,
    h: u32,
    f: StandardImageFrameFormat,
    file: Seq<u8>,
    kept: Seq<(Seq<char>, FitsValueView, Seq<char>)>,
)
    requires
        9 <= required_cards(w, h, f).len() <= 10,
        forall|i: int| 0 <= i < kept.len() ==> plain_card(#[trigger] kept[i]),
        80 * (required_cards(w, h, f) + kept).len() + 80 <= file.len(),
        forall|k: nat|
            k < (required_cards(w, h, f) + kept).len() ==> #[trigger] card_chunk(file, k) == one_card(
                (required_cards(w, h, f) + kept)[k as int],
            ),
        card_chunk(file, (required_cards(w, h, f) + kept).len()) == end_card(),
    ensures
        ({
            let r = required_cards(w, h, f).len();
            let n = (required_cards(w, h, f) + kept).len();
            let ue = scan_entries(file, r, n);
            &&& scan_cards(file, 0) == ScanView::End(block_ceil(80 * n + 80), required_entries(w, h, f) + ue)
            &&& forall|i: int| 0 <= i < ue.len() ==> !is_managed_key(#[trigger] ue[i].0)
        }),
{
    let req = required_cards(w, h, f);
    let all = req + kept;
    let r = req.len();
    let n = all.len();
    let es = required_entries(w, h, f);
    assert forall|j: nat| 0 <= j < n implies #[trigger] good_card(file, j) && trim(
        decode_utf8(card_chunk(file, j).subrange(0, 8)),
    ) != "END"@ by {
        if j < r {
            assert(all[j as int] == req[j as int]);
            lemma_file_card(w, h, f, file, j);
        } else {
            let c = kept[j - r];
            assert(all[j as int] == c);
            assert(plain_card(c));
            lemma_ascii_card(c);
        }
    }
    lemma_end_chunk();
    lemma_scan(file, 0, n);
    assert forall|j: nat| 0 <= j < r implies #[trigger] entry_at(file, j) == seq![es[j as int]] by {
        assert(all[j as int] == req[j as int]);
        lemma_file_card(w, h, f, file, j);
    }
    lemma_entries(file, 0, r, es);
    assert(es.subrange(0, r as int) =~= es);
    lemma_scan_entries_split(file, 0, r, n);
    assert forall|j: nat| r <= j < n implies !is_managed_key(
        #[trigger] trim(decode_utf8(card_chunk(file, j).subrange(0, 8))),
    ) by {
        let c = kept[j - r];
        assert(all[j as int] == c);
        assert(plain_card(c));
        lemma_ascii_card(c);
    }
    lemma_entries_unmanaged(file, r, n);
}

/// Entries after the last one with `key` leave its lookup unchanged.
proof fn lemma_lookup_append(a: Seq<(Seq<char>, Seq<char>)>, b: Seq<(Seq<char>, Seq<char>)>, key: Seq<char>)
    requires
        forall|i: int| 0 <= i < b.len() ==> (#[trigger] b[i]).0 != key,
    ensures
        lookup(a + b, key) == lookup(a, key),
    decreases b.len(),
{
    if b.len() == 0 {
        assert(a + b =~= a);
    } else {
        assert((a + b).last() == b.last());
        assert(b[b.len() - 1].0 != key);
        assert((a + b).drop_last() =~= a + b.drop_last());
        let d = b.drop_last();
        assert forall|i: int| 0 <= i < d.len() implies (#[trigger] d[i]).0 != key by {
            assert(d[i] == b[i]);
        }
        lemma_lookup_append(a, d, key);
    }
}

/// The headers the reader needs are those of the required cards, whatever
/// unmanaged entries follow them.
proof fn lemma_headers_unshadowed(w: u32, h: u32, f: StandardImageFrameFormat, ue: Seq<(Seq<char>, Seq<char>)>)
    requires
        forall|i: int| 0 <= i < ue.len() ==> !is_managed_key(#[trigger] ue[i].0),
    ensures
        ({
            let es = required_entries(w, h, f) + ue;
            let axes = spec_image_axes(w, h, f);
            &&& header_u32_spec(es, "NAXIS"@) == Some(axes.0)
            &&& header_u32_spec(es, "NAXIS1"@) == Some(axes.1)
            &&& header_u32_spec(es, "NAXIS2"@) == Some(axes.2)
            &&& header_optional_u32_spec(es, "NAXIS3"@) == Some(axes.3)
            &&& header_i64_spec(es, "BITPIX"@) == Some(spec_bitpix(f) as i64)
            &&& lookup(es, "LVFMT"@) == Some(pad_right(spec_format_name(f), 8, ' '))
        }),
{
    let re = required_entries(w, h, f);
    assert forall|i: int| 0 <= i < ue.len() implies (#[trigger] ue[i]).0 != "NAXIS"@ by {
        assert(!is_managed_key(ue[i].0));
    }
    lemma_lookup_append(re, ue, "NAXIS"@);
    assert forall|i: int| 0 <= i < ue.len() implies (#[trigger] ue[i]).0 != "NAXIS1"@ by {
        assert(!is_managed_key(ue[i].0));
    }
    lemma_lookup_append(re, ue, "NAXIS1"@);
    assert forall|i: int| 0 <= i < ue.len() implies (#[trigger] ue[i]).0 != "NAXIS2"@ by {
        assert(!is_managed_key(ue[i].0));
    }
    lemma_lookup_append(re, ue, "NAXIS2"@);
    assert forall|i: int| 0 <= i < ue.len() implies (#[trigger] ue[i]).0 != "NAXIS3"@ by {
        assert(!is_managed_key(ue[i].0));
    }
    lemma_lookup_append(re, ue, "NAXIS3"@);
    assert forall|i: int| 0 <= i < ue.len() implies (#[trigger] ue[i]).0 != "BITPIX"@ by {
        assert(!is_managed_key(ue[i].0));
    }
    lemma_lookup_append(re, ue, "BITPIX"@);
    assert forall|i: int| 0 <= i < ue.len() implies (#[trigger] ue[i]).0 != "LVFMT"@ by {
        assert(!is_managed_key(ue[i].0));
    }
    lemma_lookup_append(re, ue, "LVFMT"@);
    lemma_required_headers(w, h, f);
}

/// Decoding the FITS file the saver writes for a frame gives the frame back,
/// whatever `BZERO` reads as, when every user header card passes through the
/// reader (no user header at all included).
#[verifier::spinoff_prover]
#[verifier::rlimit(80)]
pub proof fn lemma_fits_round_trip(
    w: u32,
    h: u32,
    f: StandardImageFrameFormat,
    data: Seq<u8>,
    hs: Option<Vec<HeaderCard>>,
    bzero_is_offset: bool,
)
    requires
        data.len() == frame_len(w, h, f),
        all_pass_through(hs),
    ensures
        fits_file(w, h, f, data, hs) is Some,
        !(scan_cards(fits_file(w, h, f, data, hs)->0, 0) is Panics),
        fits_frame(fits_file(w, h, f, data, hs)->0, bzero_is_offset) == Some((w, h, f, data)),
{
    lemma_file_layout_cards(w, h, f, data, hs);
    let file = fits_file(w, h, f, data, hs)->0;
    let kept = kept_of(hs);
    let r = required_cards(w, h, f).len();
    let n = (required_cards(w, h, f) + kept).len();
    let off = block_ceil(80 * n + 80);
    lemma_file_scan_cards(w, h, f, file, kept);
    let ue = scan_entries(file, r, n);
    lemma_headers_unshadowed(w, h, f, ue);
    lemma_format_named(f);
    assert(is_wide_raw(f) ==> data.len() % 2 == 0) by {
        if is_wide_raw(f) {
            let t = w as int * h as int;
            assert(data.len() == t * 2);
        }
    }
    lemma_pixel_round_trip(data, f);
    assert(file.subrange(off as int, off + frame_len(w, h, f)) == fits_data(data, f));
}

/// The axis headers FITS gives a frame of `w x h` pixels: a monochrome
/// frame has two axes, `NAXIS1` the width and `NAXIS2` the height; a color frame has three, `NAXIS1` the samples per pixel (3 or
/// 4), `NAXIS2` the width and `NAXIS3` the height.
pub open spec fn axes_describe(
    es: Seq<(Seq<char>, Seq<char>)>,
    w: u32,
    h: u32,
    f: StandardImageFrameFormat,
) -> bool {
    if f == StandardImageFrameFormat::RGB24 || f == StandardImageFrameFormat::RGB32 {
        &&& header_u32_spec(es, "NAXIS"@) == Some(3u32)
        &&& header_u32_spec(es, "NAXIS1"@) == Some(if f == StandardImageFrameFormat::RGB24 { 3u32 } else { 4u32 })
        &&& header_u32_spec(es, "NAXIS2"@) == Some(w)
        &&& header_optional_u32_spec(es, "NAXIS3"@) == Some(Some(h))
    } else {
        &&& header_u32_spec(es, "NAXIS"@) == Some(2u32)
        &&& header_u32_spec(es, "NAXIS1"@) == Some(w)
        &&& header_u32_spec(es, "NAXIS2"@) == Some(h)
    }
}

/// The file the writer makes for a `w x h` frame carries the axis headers
/// of such a frame: for a monochrome frame `NAXIS1` is the width and
/// `NAXIS2` the height, and there is no `NAXIS3`.
pub proof fn lemma_written_axes(
    w: u32,
    h: u32,
    f: StandardImageFrameFormat,
    data: Seq<u8>,
    hs: Option<Vec<HeaderCard>>,
)
    requires
        data.len() == frame_len(w, h, f),
        all_pass_through(hs),
    ensures
        fits_file(w, h, f, data, hs) is Some,
        scan_cards(fits_file(w, h, f, data, hs)->0, 0) matches ScanView::End(_, es) && axes_describe(es, w, h, f)
            && (f != StandardImageFrameFormat::RGB24 && f != StandardImageFrameFormat::RGB32 ==> header_optional_u32_spec(
            es,
            "NAXIS3"@,
        ) == Some(None::<u32>)),
{
    lemma_file_layout_cards(w, h, f, data, hs);
    let file = fits_file(w, h, f, data, hs)->0;
    let kept = kept_of(hs);
    let r = required_cards(w, h, f).len();
    let n = (required_cards(w, h, f) + kept).len();
    lemma_file_scan_cards(w, h, f, file, kept);
    let ue = scan_entries(file, r, n);
    lemma_headers_unshadowed(w, h, f, ue);
}

/// A frame the reader takes from a FITS file has the size the file's axis
/// headers give: for a monochrome frame the width is `NAXIS1` and the
/// height `NAXIS2` (a `NAXIS3` header, if any, is not read).
pub proof fn lemma_read_axes(bytes: Seq<u8>, bzero_is_offset: bool)
    requires
        fits_frame(bytes, bzero_is_offset) is Some,
    ensures
        ({
            let (w, h, f, _d) = fits_frame(bytes, bzero_is_offset)->0;
            scan_cards(bytes, 0) matches ScanView::End(_, es) && axes_describe(es, w, h, f)
        }),
{
}

/// `BITPIX` is the bits of one sample: a pixel of `channels` samples takes
/// `BITPIX / 8` bytes per channel; 16-bit samples are stored with `BZERO`
/// 32768 (in units of 10^-10), 8-bit ones with `BZERO` 0.
pub proof fn lemma_bitpix_is_sample_width(f: StandardImageFrameFormat)
    ensures
        spec_bitpix(f) * channels_of(f) == 8 * spec_bytes_per_pixel(f),
        spec_bzero(f) == if spec_bitpix(f) == 16 { 327680000000000int } else { 0int },
{
}

} // verus!
