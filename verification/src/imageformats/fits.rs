//! FITS writer: header cards, pixel data and block padding.
use vstd::prelude::*;
use vstd::utf8::{decode_utf8, encode_scalar, encode_utf8, is_char_boundary, valid_utf8};

use crate::base::errors::{VastError, VastErrorType};
use crate::imageformats::types::{
    all_formats, all_formats_exec, expected_data_len, file_error, frame_len, FitsHeaderValue,
    FitsValueView, HeaderCard, ImageFrame, ImageSaver,
};
use crate::text::{
    all_ascii, ascii_bytes, lemma_encode_ascii,
    chars_eq_str, decimal, decimal_chars, owned, pad_left, pad_right, push_decimal, push_str, push_utf8,
    signed_decimal, signed_decimal_chars, slice_range, str_chars, utf8_width, vpush_chars,
    vpush_padded_left, vpush_padded_right,
};
use crate::types::imageformats::{
    is_wide_raw, spec_bytes_per_pixel, spec_format_name, ImageFrameFormat, StandardImageFrameFormat,
};

verus! {

/// Size of one FITS block.
pub const FITS_BLOCK_SIZE: usize = 2880;

/// Size of one FITS header card.
pub const FITS_CARD_SIZE: usize = 80;

/// FITS saver configured for one image geometry and camera frame format.
#[derive(Debug, Clone, Copy, PartialEq, Eq, Structural)]
pub struct FitsImageSaver {
    /// Image width in pixels.
    pub width: u32,
    /// Image height in pixels.
    pub height: u32,
    /// Raw camera frame format used to encode FITS pixel data.
    pub format: StandardImageFrameFormat,
}

impl FitsImageSaver {
    /// Creates a FITS saver for frames with the given dimensions and format.
    pub fn new(width: u32, height: u32, format: StandardImageFrameFormat) -> (r: Self)
        ensures
            r.width == width,
            r.height == height,
            r.format == format,
    {
        FitsImageSaver { width, height, format }
    }
}

// ---------------------------------------------------------------------------
// Header card text
// ---------------------------------------------------------------------------

/// `s` with every `'` doubled.
pub open spec fn escape_quotes(s: Seq<char>) -> Seq<char>
    decreases s.len(),
{
    if s.len() == 0 {
        Seq::empty()
    } else {
        (if s[0] == '\'' {
            seq!['\'', '\'']
        } else {
            seq![s[0]]
        }) + escape_quotes(s.drop_first())
    }
}

/// Ten billion: one unit of a [`FitsHeaderValue::Fixed`] value is 1/TEN_BILLION.
pub open spec fn ten_billion() -> int {
    10_000_000_000
}

/// `{:.10}` of the real number `u / 10^10`.
pub open spec fn fixed_text(u: int) -> Seq<char> {
    let a = if u < 0 {
        -u
    } else {
        u
    };
    (if u < 0 {
        seq!['-']
    } else {
        Seq::empty()
    }) + decimal((a / ten_billion()) as nat) + seq!['.'] + pad_left(
        decimal((a % ten_billion()) as nat),
        10,
        '0',
    )
}

/// The value field of a header card.
pub open spec fn value_text(v: FitsValueView) -> Seq<char> {
    match v {
        FitsValueView::Str(s) => seq!['\''] + pad_right(escape_quotes(s), 8, ' ') + seq!['\''],
        FitsValueView::Int(i) => pad_left(signed_decimal(i), 20, ' '),
        FitsValueView::Fixed(u) => pad_left(fixed_text(u), 20, ' '),
        FitsValueView::Bool(b) => pad_left(
            if b {
                seq!['T']
            } else {
                seq!['F']
            },
            20,
            ' ',
        ),
    }
}

/// The text of a header card before it is cut and padded to 80 characters.
pub open spec fn card_text(key: Seq<char>, value: FitsValueView, comment: Seq<char>) -> Seq<char> {
    let base = pad_right(key, 8, ' ') + seq!['=', ' '] + value_text(value);
    if comment.len() == 0 {
        base
    } else {
        base + seq![' ', '/', ' '] + comment
    }
}

/// `String::truncate(n)` on text: the text itself when its UTF-8 encoding has
/// at most `n` bytes, else its prefix of exactly `n` bytes, or `None` when
/// byte `n` falls inside a character (where `truncate` panics).
pub open spec fn truncate_bytes(s: Seq<char>, n: nat) -> Option<Seq<char>>
    decreases s.len(),
{
    if s.len() == 0 {
        Some(s)
    } else {
        let w = encode_scalar(s[0] as u32).len();
        if w <= n {
            match truncate_bytes(s.drop_first(), (n - w) as nat) {
                Some(t) => Some(seq![s[0]] + t),
                None => None,
            }
        } else if n == 0 {
            Some(Seq::empty())
        } else {
            None
        }
    }
}

/// The 80-byte image of a card text: cut to 80 bytes, padded with spaces to
/// 80 characters, UTF-8 encoded; `None` where cutting panics.
pub open spec fn card_bytes(text: Seq<char>) -> Option<Seq<u8>> {
    match truncate_bytes(text, 80) {
        Some(t) => Some(encode_utf8(pad_right(t, 80, ' '))),
        None => None,
    }
}

/// The `END` card.
pub open spec fn end_card() -> Seq<u8> {
    encode_utf8(pad_right(seq!['E', 'N', 'D'], 80, ' '))
}

/// A keyword character: ASCII letter, digit or `-`.
pub open spec fn is_key_char(c: char) -> bool {
    ('A' <= c && c <= 'Z') || ('a' <= c && c <= 'z') || ('0' <= c && c <= '9') || c == '-'
}

/// A keyword the writer accepts: one to eight keyword characters.
pub open spec fn valid_header_key(k: Seq<char>) -> bool {
    0 < k.len() <= 8 && forall|i: int| 0 <= i < k.len() ==> is_key_char(#[trigger] k[i])
}

/// Keywords the writer produces itself and skips in user headers.
pub open spec fn is_managed_key(k: Seq<char>) -> bool {
    ||| k == "SIMPLE"@
    ||| k == "BITPIX"@
    ||| k == "NAXIS"@
    ||| k == "NAXIS1"@
    ||| k == "NAXIS2"@
    ||| k == "NAXIS3"@
    ||| k == "BZERO"@
    ||| k == "BSCALE"@
    ||| k == "LVFMT"@
    ||| k == "EXTEND"@
}

fn is_key_char_exec(c: char) -> (b: bool)
    ensures
        b == is_key_char(c),
{
    ('A' <= c && c <= 'Z') || ('a' <= c && c <= 'z') || ('0' <= c && c <= '9') || c == '-'
}

fn validate_header_key(key: &[char]) -> (r: bool)
    ensures
        r == valid_header_key(key@),
{
    if key.len() == 0 || key.len() > 8 {
        return false;
    }
    let mut i: usize = 0;
    while i < key.len()
        invariant
            i <= key.len(),
            forall|j: int| 0 <= j < i ==> is_key_char(#[trigger] key@[j]),
        decreases key.len() - i,
    {
        if !is_key_char_exec(key[i]) {
            return false;
        }
        i = i + 1;
    }
    true
}

fn is_managed_header(key: &[char]) -> (r: bool)
    ensures
        r == is_managed_key(key@),
{
    chars_eq_str(key, "SIMPLE") || chars_eq_str(key, "BITPIX") || chars_eq_str(key, "NAXIS")
        || chars_eq_str(key, "NAXIS1") || chars_eq_str(key, "NAXIS2") || chars_eq_str(
        key,
        "NAXIS3",
    ) || chars_eq_str(key, "BZERO") || chars_eq_str(key, "BSCALE") || chars_eq_str(key, "LVFMT")
        || chars_eq_str(key, "EXTEND")
}

#[verifier::spinoff_prover]
#[verifier::rlimit(60)]
fn escape_header_string(s: &[char]) -> (r: Vec<char>)
    ensures
        r@ == escape_quotes(s@),
{
    let mut r: Vec<char> = Vec::new();
    let mut k: usize = 0;
    assert(s@.subrange(0, s@.len() as int) =~= s@);
    assert(r@ + escape_quotes(s@) =~= escape_quotes(s@));
    while k < s.len()
        invariant
            k <= s.len(),
            r@ + escape_quotes(s@.subrange(k as int, s@.len() as int)) == escape_quotes(s@),
        decreases s.len() - k,
    {
        let ghost rest = s@.subrange(k as int, s@.len() as int);
        assert(rest.drop_first() =~= s@.subrange(k + 1, s@.len() as int));
        assert(rest[0] == s@[k as int]);
        if s[k] == '\'' {
            r.push('\'');
            r.push('\'');
        } else {
            r.push(s[k]);
        }
        let ghost r_now = r@;
        k = k + 1;
        proof {
            assert(escape_quotes(rest) == (if rest[0] == '\'' {
                seq!['\'', '\'']
            } else {
                seq![rest[0]]
            }) + escape_quotes(rest.drop_first()));
            assert(r_now + escape_quotes(s@.subrange(k as int, s@.len() as int)) =~= escape_quotes(
                s@,
            )) by {
                let prev = r_now.subrange(0, r_now.len() - (if rest[0] == '\'' {
                    2int
                } else {
                    1int
                }));
                assert(r_now =~= prev + (if rest[0] == '\'' {
                    seq!['\'', '\'']
                } else {
                    seq![rest[0]]
                }));
            }
        }
    }
    assert(s@.subrange(s@.len() as int, s@.len() as int) =~= Seq::<char>::empty());
    assert(escape_quotes(Seq::<char>::empty()) =~= Seq::<char>::empty());
    assert(r@ =~= escape_quotes(s@));
    r
}

fn fixed_chars(u: i64) -> (r: Vec<char>)
    ensures
        r@ == fixed_text(u as int),
{
    let a: u64 = if u < 0 {
        if u == i64::MIN {
            9223372036854775808u64
        } else {
            (-u) as u64
        }
    } else {
        u as u64
    };
    let mut r: Vec<char> = Vec::new();
    if u < 0 {
        r.push('-');
    }
    let whole = decimal_chars(a / 10_000_000_000u64);
    vpush_chars(&mut r, whole.as_slice());
    r.push('.');
    let frac = decimal_chars(a % 10_000_000_000u64);
    vpush_padded_left(&mut r, frac.as_slice(), 10, '0');
    assert(r@ =~= fixed_text(u as int));
    r
}

fn format_header_value(value: &FitsHeaderValue) -> (r: Vec<char>)
    ensures
        r@ == value_text(value@),
{
    let mut r: Vec<char> = Vec::new();
    match value {
        FitsHeaderValue::String(s) => {
            let chars = str_chars(s.as_str());
            let escaped = escape_header_string(chars.as_slice());
            r.push('\'');
            vpush_padded_right(&mut r, escaped.as_slice(), 8, ' ');
            r.push('\'');
        },
        FitsHeaderValue::Integer(i) => {
            let d = signed_decimal_chars(*i);
            vpush_padded_left(&mut r, d.as_slice(), 20, ' ');
        },
        FitsHeaderValue::Fixed(u) => {
            let d = fixed_chars(*u);
            vpush_padded_left(&mut r, d.as_slice(), 20, ' ');
        },
        FitsHeaderValue::Boolean(b) => {
            let d: Vec<char> = if *b {
                vec!['T']
            } else {
                vec!['F']
            };
            vpush_padded_left(&mut r, d.as_slice(), 20, ' ');
        },
    }
    assert(r@ =~= value_text(value@));
    r
}

/// Text of a card with keyword `key`.
fn header_card_text(key: &[char], value: &FitsHeaderValue, comment: &[char]) -> (r: Vec<char>)
    ensures
        r@ == card_text(key@, value@, comment@),
{
    let mut r: Vec<char> = Vec::new();
    vpush_padded_right(&mut r, key, 8, ' ');
    r.push('=');
    r.push(' ');
    let v = format_header_value(value);
    vpush_chars(&mut r, v.as_slice());
    if comment.len() != 0 {
        r.push(' ');
        r.push('/');
        r.push(' ');
        vpush_chars(&mut r, comment);
    }
    assert(r@ =~= card_text(key@, value@, comment@));
    r
}

proof fn lemma_truncate_step(s: Seq<char>, i: int, n: nat)
    requires
        0 <= i < s.len(),
        encode_scalar(s[i] as u32).len() <= n,
    ensures
        truncate_bytes(s.subrange(i, s.len() as int), n) == match truncate_bytes(
            s.subrange(i + 1, s.len() as int),
            (n - encode_scalar(s[i] as u32).len()) as nat,
        ) {
            Some(t) => Some(seq![s[i]] + t),
            None => None,
        },
{
    let r = s.subrange(i, s.len() as int);
    assert(r.drop_first() =~= s.subrange(i + 1, s.len() as int));
    assert(r[0] == s[i]);
}

/// Number of leading characters of `text` that `truncate_bytes(text, 80)`
/// keeps.
#[verifier::spinoff_prover]
#[verifier::rlimit(60)]
fn truncated_len(text: &[char]) -> (k: usize)
    requires
        truncate_bytes(text@, 80) is Some,
    ensures
        k <= text.len(),
        truncate_bytes(text@, 80) == Some(text@.subrange(0, k as int)),
{
    let mut i: usize = 0;
    let mut budget: usize = 80;
    proof {
        assert(text@.subrange(0, text@.len() as int) =~= text@);
        let t = truncate_bytes(text@, 80);
        if t is Some {
            assert(text@.subrange(0, 0) + t->0 =~= t->0);
        }
    }
    while i < text.len()
        invariant
            i <= text.len(),
            budget <= 80,
            truncate_bytes(text@, 80) is Some,
            truncate_bytes(text@, 80) == match truncate_bytes(
                text@.subrange(i as int, text@.len() as int),
                budget as nat,
            ) {
                Some(t) => Some(text@.subrange(0, i as int) + t),
                None => None,
            },
        decreases text.len() - i,
    {
        let w = utf8_width(text[i]);
        if w > budget {
            let ghost rest = text@.subrange(i as int, text@.len() as int);
            assert(rest[0] == text@[i as int]);
            assert(budget == 0) by {
                if budget != 0 {
                    assert(truncate_bytes(rest, budget as nat) is None);
                }
            }
            assert(truncate_bytes(rest, budget as nat) == Some(Seq::<char>::empty()));
            assert(text@.subrange(0, i as int) + Seq::<char>::empty() =~= text@.subrange(
                0,
                i as int,
            ));
            return i;
        }
        proof {
            lemma_truncate_step(text@, i as int, budget as nat);
            let t = truncate_bytes(text@.subrange(i + 1, text@.len() as int), (budget - w) as nat);
            if t is Some {
                assert(text@.subrange(0, i as int) + (seq![text@[i as int]] + t->0) =~= text@.subrange(
                    0,
                    i + 1,
                ) + t->0);
            }
        }
        budget = budget - w;
        i = i + 1;
    }
    let ghost rest = text@.subrange(i as int, text@.len() as int);
    assert(rest.len() == 0);
    assert(text@.subrange(0, i as int) + rest =~= text@.subrange(0, i as int));
    i
}

/// Whether cutting `text` to 80 bytes falls inside a character.
fn truncate_panics(text: &[char]) -> (r: bool)
    ensures
        r == (truncate_bytes(text@, 80) is None),
{
    let mut i: usize = 0;
    let mut budget: usize = 80;
    proof {
        assert(text@.subrange(0, text@.len() as int) =~= text@);
    }
    while i < text.len()
        invariant
            i <= text.len(),
            budget <= 80,
            (truncate_bytes(text@, 80) is None) == (truncate_bytes(
                text@.subrange(i as int, text@.len() as int),
                budget as nat,
            ) is None),
        decreases text.len() - i,
    {
        let w = utf8_width(text[i]);
        if w > budget {
            let ghost rest = text@.subrange(i as int, text@.len() as int);
            assert(rest[0] == text@[i as int]);
            return budget != 0;
        }
        proof {
            lemma_truncate_step(text@, i as int, budget as nat);
        }
        budget = budget - w;
        i = i + 1;
    }
    false
}

/// Whether writing the user cards `hs` stops where cutting a card to 80
/// bytes falls inside a character (see [`user_cards`]).
pub fn user_cards_panic(hs: &Vec<HeaderCard>) -> (r: bool)
    ensures
        r == (user_cards(hs@) is Panics),
{
    let mut i: usize = 0;
    proof {
        assert(hs@.subrange(0, hs@.len() as int) =~= hs@);
    }
    while i < hs.len()
        invariant
            i <= hs.len(),
            (user_cards(hs@) is Panics) == (user_cards(hs@.subrange(i as int, hs@.len() as int)) is Panics),
        decreases hs.len() - i,
    {
        proof {
            lemma_user_cards_step(hs@, i as int);
        }
        let h = &hs[i];
        let key_chars = str_chars(h.key);
        if !is_managed_header(key_chars.as_slice()) {
            if !validate_header_key(key_chars.as_slice()) {
                return false;
            }
            let comment_chars = str_chars(h.comment);
            let text = header_card_text(key_chars.as_slice(), &h.value, comment_chars.as_slice());
            if truncate_panics(text.as_slice()) {
                return true;
            }
        }
        i = i + 1;
    }
    proof {
        assert(hs@.subrange(i as int, hs@.len() as int) =~= Seq::<HeaderCard>::empty());
    }
    false
}

/// Appends the 80-byte image of `text`.
fn push_card(bytes: &mut Vec<u8>, text: &[char])
    requires
        card_bytes(text@) is Some,
    ensures
        final(bytes)@ == old(bytes)@ + card_bytes(text@)->0,
{
    let k = truncated_len(text);
    let mut t: Vec<char> = slice_range(text, 0, k);
    let mut padded: Vec<char> = Vec::new();
    vpush_padded_right(&mut padded, t.as_slice(), 80, ' ');
    push_utf8(bytes, padded.as_slice());
}

fn write_header_card(bytes: &mut Vec<u8>, key: &str, value: &FitsHeaderValue, comment: &str) -> (r: Result<(), VastError>)
    requires
        valid_header_key(key@) ==> card_bytes(card_text(key@, value@, comment@)) is Some,
    ensures
        r is Ok <==> valid_header_key(key@),
        r is Ok ==> final(bytes)@ == old(bytes)@ + card_bytes(card_text(key@, value@, comment@))->0,
        r is Err ==> final(bytes)@ == old(bytes)@ && r->Err_0.error_type == VastErrorType::FileError,
{
    let key_chars = str_chars(key);
    if !validate_header_key(key_chars.as_slice()) {
        let mut m = owned("invalid FITS header key: ");
        push_str(&mut m, key);
        return Err(file_error(m));
    }
    let comment_chars = str_chars(comment);
    let text = header_card_text(key_chars.as_slice(), value, comment_chars.as_slice());
    push_card(bytes, text.as_slice());
    Ok(())
}

fn write_end_card(bytes: &mut Vec<u8>)
    ensures
        final(bytes)@ == old(bytes)@ + end_card(),
{
    let mut padded: Vec<char> = Vec::new();
    let e: Vec<char> = vec!['E', 'N', 'D'];
    assert(e@ =~= seq!['E', 'N', 'D']);
    vpush_padded_right(&mut padded, e.as_slice(), 80, ' ');
    push_utf8(bytes, padded.as_slice());
}

// ---------------------------------------------------------------------------
// Required header cards
// ---------------------------------------------------------------------------

/// FITS axes `(NAXIS, NAXIS1, NAXIS2, NAXIS3)` of a frame.
pub open spec fn spec_image_axes(w: u32, h: u32, f: StandardImageFrameFormat) -> (u32, u32, u32, Option<u32>) {
    match f {
        StandardImageFrameFormat::RGB24 => (3, 3, w, Some(h)),
        StandardImageFrameFormat::RGB32 => (3, 4, w, Some(h)),
        _ => (2, w, h, None),
    }
}

/// FITS `BITPIX` of a format.
pub open spec fn spec_bitpix(f: StandardImageFrameFormat) -> int {
    if is_wide_raw(f) {
        16
    } else {
        8
    }
}

/// FITS `BZERO` of a format, in units of 10^-10.
pub open spec fn spec_bzero(f: StandardImageFrameFormat) -> int {
    if is_wide_raw(f) {
        32768 * ten_billion()
    } else {
        0
    }
}

/// The cards the writer always emits, as `(keyword, value, comment)`, in order.
pub open spec fn required_cards(w: u32, h: u32, f: StandardImageFrameFormat) -> Seq<(Seq<char>, FitsValueView, Seq<char>)> {
    let axes = spec_image_axes(w, h, f);
    seq![
        ("SIMPLE"@, FitsValueView::Bool(true), "file conforms to FITS standard"@),
        ("BITPIX"@, FitsValueView::Int(spec_bitpix(f)), "bits per data value"@),
        ("NAXIS"@, FitsValueView::Int(axes.0 as int), "number of data axes"@),
        ("NAXIS1"@, FitsValueView::Int(axes.1 as int), "axis 1 length"@),
        ("NAXIS2"@, FitsValueView::Int(axes.2 as int), "axis 2 length"@),
        ("BZERO"@, FitsValueView::Fixed(spec_bzero(f)), "data zero offset"@),
        ("BSCALE"@, FitsValueView::Fixed(ten_billion()), "data scale factor"@),
        ("LVFMT"@, FitsValueView::Str(spec_format_name(f)), "original lvast frame format"@),
        ("EXTEND"@, FitsValueView::Bool(true), "FITS dataset may contain extensions"@),
    ] + match axes.3 {
        Some(n) => seq![("NAXIS3"@, FitsValueView::Int(n as int), "axis 3 length"@)],
        None => Seq::empty(),
    }
}

/// The images of a list of cards, one after the other.
pub open spec fn cards_bytes(cards: Seq<(Seq<char>, FitsValueView, Seq<char>)>) -> Seq<u8>
    decreases cards.len(),
{
    if cards.len() == 0 {
        Seq::empty()
    } else {
        cards_bytes(cards.drop_last()) + one_card(cards.last())
    }
}

/// The image of one `(keyword, value, comment)` card.
#[verifier::opaque]
pub open spec fn one_card(c: (Seq<char>, FitsValueView, Seq<char>)) -> Seq<u8> {
    card_bytes(card_text(c.0, c.1, c.2))->0
}

pub(crate) proof fn lemma_cards_take_step(s: Seq<(Seq<char>, FitsValueView, Seq<char>)>, i: int)
    requires
        0 <= i < s.len(),
    ensures
        cards_bytes(s.take(i + 1)) == cards_bytes(s.take(i)) + one_card(s[i]),
{
    assert(s.take(i + 1).drop_last() =~= s.take(i));
}

/// Powers of ten.
pub open spec fn pow10(k: nat) -> nat
    decreases k,
{
    if k == 0 {
        1
    } else {
        10 * pow10((k - 1) as nat)
    }
}

pub(crate) proof fn lemma_pow10_values()
    ensures
        pow10(5) == 100000,
        pow10(10) == 10000000000,
{
    reveal_with_fuel(pow10, 11);
}

pub(crate) proof fn lemma_decimal_len(n: nat, k: nat)
    requires
        k >= 1,
        n < pow10(k),
    ensures
        decimal(n).len() <= k,
        all_ascii(decimal(n)),
    decreases k,
{
    crate::text::lemma_decimal_digits(n);
    if n >= 10 {
        if k == 1 {
            assert(pow10(1) == 10) by {
                reveal_with_fuel(pow10, 2);
            }
        }
        assert(n / 10 < pow10((k - 1) as nat));
        lemma_decimal_len(n / 10, (k - 1) as nat);
    }
    assert forall|i: int| 0 <= i < decimal(n).len() implies (#[trigger] decimal(n)[i] as u32) < 0x80 by {
        assert(crate::text::is_digit(decimal(n)[i]));
    }
}

/// Text whose encoding fits in `n` bytes is kept whole.
pub(crate) proof fn lemma_truncate_fits(s: Seq<char>, n: nat)
    requires
        encode_utf8(s).len() <= n,
    ensures
        truncate_bytes(s, n) == Some(s),
    decreases s.len(),
{
    if s.len() > 0 {
        let w = encode_scalar(s[0] as u32).len();
        assert(encode_utf8(s) == encode_scalar(s[0] as u32) + encode_utf8(s.drop_first()));
        lemma_truncate_fits(s.drop_first(), (n - w) as nat);
        assert(seq![s[0]] + s.drop_first() =~= s);
    }
}

pub(crate) proof fn lemma_pad_ascii(s: Seq<char>, width: nat, fill: char, left: bool)
    requires
        all_ascii(s),
        (fill as u32) < 0x80,
    ensures
        all_ascii(if left {
            pad_left(s, width, fill)
        } else {
            pad_right(s, width, fill)
        }),
        (if left {
            pad_left(s, width, fill)
        } else {
            pad_right(s, width, fill)
        }).len() == if s.len() >= width {
            s.len()
        } else {
            width
        },
{
    let p = if left {
        pad_left(s, width, fill)
    } else {
        pad_right(s, width, fill)
    };
    assert forall|i: int| 0 <= i < p.len() implies (#[trigger] p[i] as u32) < 0x80 by {
        if s.len() < width {
            if left {
                if i >= width - s.len() {
                    assert(p[i] == s[i - (width - s.len())]);
                }
            } else {
                if i < s.len() {
                    assert(p[i] == s[i]);
                }
            }
        }
    }
}

/// A required card: ASCII, at most 80 characters, with a valid keyword.
#[verifier::spinoff_prover]
#[verifier::rlimit(60)]
pub(crate) proof fn lemma_small_card(key: Seq<char>, v: FitsValueView, comment: Seq<char>)
    requires
        valid_header_key(key),
        all_ascii(value_text(v)),
        value_text(v).len() <= 20,
        all_ascii(comment),
        comment.len() <= 47,
    ensures
        all_ascii(card_text(key, v, comment)),
        card_text(key, v, comment).len() <= 80,
        card_bytes(card_text(key, v, comment)) == Some(
            ascii_bytes(pad_right(card_text(key, v, comment), 80, ' ')),
        ),
        ascii_bytes(pad_right(card_text(key, v, comment), 80, ' ')).len() == 80,
{
    assert(all_ascii(key)) by {
        assert forall|i: int| 0 <= i < key.len() implies (#[trigger] key[i] as u32) < 0x80 by {
            assert(is_key_char(key[i]));
        }
    }
    lemma_pad_ascii(key, 8, ' ', false);
    let t = card_text(key, v, comment);
    let base = pad_right(key, 8, ' ') + seq!['=', ' '] + value_text(v);
    assert(all_ascii(base)) by {
        assert forall|i: int| 0 <= i < base.len() implies (#[trigger] base[i] as u32) < 0x80 by {
            if i < 8 {
                assert(base[i] == pad_right(key, 8, ' ')[i]);
            } else if i >= 10 {
                assert(base[i] == value_text(v)[i - 10]);
            }
        }
    }
    assert(all_ascii(t)) by {
        if comment.len() != 0 {
            assert forall|i: int| 0 <= i < t.len() implies (#[trigger] t[i] as u32) < 0x80 by {
                if i < base.len() {
                    assert(t[i] == base[i]);
                } else if i >= base.len() + 3 {
                    assert(t[i] == comment[i - base.len() - 3]);
                }
            }
        }
    }
    lemma_encode_ascii(t);
    lemma_truncate_fits(t, 80);
    lemma_pad_ascii(t, 80, ' ', false);
    lemma_encode_ascii(pad_right(t, 80, ' '));
}

pub(crate) proof fn lemma_int_value_text(n: u32)
    ensures
        all_ascii(value_text(FitsValueView::Int(n as int))),
        value_text(FitsValueView::Int(n as int)).len() == 20,
{
    lemma_pow10_values();
    lemma_decimal_len(n as nat, 10);
    assert(signed_decimal(n as int) == decimal(n as nat));
    lemma_pad_ascii(decimal(n as nat), 20, ' ', true);
}

pub(crate) proof fn lemma_fixed_value_text(u: int)
    requires
        0 <= u <= 32768 * ten_billion(),
    ensures
        all_ascii(value_text(FitsValueView::Fixed(u))),
        value_text(FitsValueView::Fixed(u)).len() == 20,
{
    lemma_pow10_values();
    lemma_decimal_len((u / ten_billion()) as nat, 5);
    lemma_decimal_len((u % ten_billion()) as nat, 10);
    let w = decimal((u / ten_billion()) as nat);
    let fr = pad_left(decimal((u % ten_billion()) as nat), 10, '0');
    lemma_pad_ascii(decimal((u % ten_billion()) as nat), 10, '0', true);
    let t = fixed_text(u);
    assert(t =~= w + seq!['.'] + fr);
    assert(all_ascii(t)) by {
        assert forall|i: int| 0 <= i < t.len() implies (#[trigger] t[i] as u32) < 0x80 by {
            if i < w.len() {
                assert(t[i] == w[i]);
            } else if i > w.len() {
                assert(t[i] == fr[i - w.len() - 1]);
            }
        }
    }
    lemma_pad_ascii(t, 20, ' ', true);
}

pub(crate) proof fn lemma_bool_value_text(b: bool)
    ensures
        all_ascii(value_text(FitsValueView::Bool(b))),
        value_text(FitsValueView::Bool(b)).len() == 20,
{
    let s = if b {
        seq!['T']
    } else {
        seq!['F']
    };
    lemma_pad_ascii(s, 20, ' ', true);
}

pub(crate) proof fn lemma_name_value_text(f: StandardImageFrameFormat)
    ensures
        all_ascii(value_text(FitsValueView::Str(spec_format_name(f)))),
        value_text(FitsValueView::Str(spec_format_name(f))).len() == 10,
        escape_quotes(spec_format_name(f)) == spec_format_name(f),
{
    let n = spec_format_name(f);
    reveal_strlit("RAW8");
    reveal_strlit("RAW10");
    reveal_strlit("RAW12");
    reveal_strlit("RAW14");
    reveal_strlit("RAW16");
    reveal_strlit("RGB24");
    reveal_strlit("RGB32");
    lemma_escape_plain(n);
    lemma_pad_ascii(n, 8, ' ', false);
    let t = value_text(FitsValueView::Str(n));
    let p = pad_right(n, 8, ' ');
    assert forall|i: int| 0 <= i < t.len() implies (#[trigger] t[i] as u32) < 0x80 by {
        if 1 <= i <= 8 {
            assert(t[i] == p[i - 1]);
        }
    }
}

/// Text without `'` is left unchanged by escaping.
pub(crate) proof fn lemma_escape_plain(s: Seq<char>)
    requires
        forall|i: int| 0 <= i < s.len() ==> #[trigger] s[i] != '\'',
    ensures
        escape_quotes(s) == s,
    decreases s.len(),
{
    if s.len() > 0 {
        lemma_escape_plain(s.drop_first());
        assert(seq![s[0]] + s.drop_first() =~= s);
    }
}

fn image_axes(width: u32, height: u32, format: StandardImageFrameFormat) -> (r: (u32, u32, u32, Option<u32>))
    ensures
        r == spec_image_axes(width, height, format),
{
    match format {
        StandardImageFrameFormat::RGB24 => (3, 3, width, Some(height)),
        StandardImageFrameFormat::RGB32 => (3, 4, width, Some(height)),
        _ => (2, width, height, None),
    }
}

fn bitpix(format: StandardImageFrameFormat) -> (r: i64)
    ensures
        r == spec_bitpix(format),
{
    match format {
        StandardImageFrameFormat::RAW8
        | StandardImageFrameFormat::RGB24
        | StandardImageFrameFormat::RGB32 => 8,
        _ => 16,
    }
}

fn bzero(format: StandardImageFrameFormat) -> (r: i64)
    ensures
        r == spec_bzero(format),
{
    match format {
        StandardImageFrameFormat::RAW8
        | StandardImageFrameFormat::RGB24
        | StandardImageFrameFormat::RGB32 => 0,
        _ => 327680000000000,
    }
}

fn write_required_card(bytes: &mut Vec<u8>, key: &str, value: FitsHeaderValue, comment: &str)
    requires
        valid_header_key(key@),
        all_ascii(value_text(value@)),
        value_text(value@).len() <= 20,
        all_ascii(comment@),
        comment@.len() <= 47,
    ensures
        final(bytes)@ == old(bytes)@ + card_bytes(card_text(key@, value@, comment@))->0,
{
    proof {
        lemma_small_card(key@, value@, comment@);
    }
    let r = write_header_card(bytes, key, &value, comment);
}

/// The images of three consecutive cards, from position `i` on.
pub open spec fn three_cards(cards: Seq<(Seq<char>, FitsValueView, Seq<char>)>, i: int) -> Seq<u8> {
    one_card(cards[i]) + one_card(cards[i + 1]) + one_card(cards[i + 2])
}

/// The images of three consecutive required cards, from position `i` on.
pub open spec fn three_required(w: u32, h: u32, f: StandardImageFrameFormat, i: int) -> Seq<u8> {
    three_cards(required_cards(w, h, f), i)
}

#[verifier::spinoff_prover]
#[verifier::rlimit(60)]
proof fn lemma_nine_cards(cards: Seq<(Seq<char>, FitsValueView, Seq<char>)>)
    requires
        cards.len() >= 9,
    ensures
        cards_bytes(cards.take(9)) == three_cards(cards, 0) + three_cards(cards, 3) + three_cards(cards, 6),
{
    lemma_prefix_images(cards, 9);
    assert(cards_prefix_images(cards, 0) =~= Seq::<u8>::empty());
    assert(cards_prefix_images(cards, 3) =~= three_cards(cards, 0)) by {
        reveal_with_fuel(cards_prefix_images, 4);
    }
    assert(cards_prefix_images(cards, 6) =~= cards_prefix_images(cards, 3) + three_cards(cards, 3)) by {
        reveal_with_fuel(cards_prefix_images, 4);
    }
    assert(cards_prefix_images(cards, 9) =~= cards_prefix_images(cards, 6) + three_cards(cards, 6)) by {
        reveal_with_fuel(cards_prefix_images, 4);
    }
}

proof fn lemma_prefix_images(cards: Seq<(Seq<char>, FitsValueView, Seq<char>)>, i: int)
    requires
        0 <= i <= cards.len(),
    ensures
        cards_bytes(cards.take(i)) == cards_prefix_images(cards, i),
    decreases i,
{
    if i == 0 {
        assert(cards.take(0) =~= Seq::<(Seq<char>, FitsValueView, Seq<char>)>::empty());
    } else {
        lemma_prefix_images(cards, i - 1);
        lemma_cards_take_step(cards, i - 1);
    }
}

/// The images of the first `i` cards, appended one after the other.
pub open spec fn cards_prefix_images(cards: Seq<(Seq<char>, FitsValueView, Seq<char>)>, i: int) -> Seq<u8>
    decreases i,
{
    if i <= 0 {
        Seq::empty()
    } else {
        cards_prefix_images(cards, i - 1) + one_card(cards[i - 1])
    }
}

#[verifier::spinoff_prover]
#[verifier::rlimit(60)]
fn write_required_part1(bytes: &mut Vec<u8>, width: u32, height: u32, format: StandardImageFrameFormat)
    ensures
        final(bytes)@ == old(bytes)@ + three_required(width, height, format, 0),
{
    reveal(one_card);
    let (naxis, naxis1, naxis2, naxis3) = image_axes(width, height, format);
    proof {
        reveal_strlit("SIMPLE");
        reveal_strlit("BITPIX");
        reveal_strlit("NAXIS");
        reveal_strlit("file conforms to FITS standard");
        reveal_strlit("bits per data value");
        reveal_strlit("number of data axes");
        lemma_bool_value_text(true);
        lemma_int_value_text(naxis);
        assert(value_text(FitsValueView::Int(spec_bitpix(format))) == value_text(
            FitsValueView::Int((spec_bitpix(format) as u32) as int),
        ));
        lemma_int_value_text(spec_bitpix(format) as u32);
    }
    let ghost b0 = bytes@;
    write_required_card(bytes, "SIMPLE", FitsHeaderValue::Boolean(true), "file conforms to FITS standard");
    write_required_card(bytes, "BITPIX", FitsHeaderValue::Integer(bitpix(format)), "bits per data value");
    write_required_card(bytes, "NAXIS", FitsHeaderValue::Integer(naxis as i64), "number of data axes");
    assert(bytes@ =~= b0 + three_required(width, height, format, 0));
}

#[verifier::spinoff_prover]
#[verifier::rlimit(60)]
fn write_required_part2(bytes: &mut Vec<u8>, width: u32, height: u32, format: StandardImageFrameFormat)
    ensures
        final(bytes)@ == old(bytes)@ + three_required(width, height, format, 3),
{
    reveal(one_card);
    let (naxis, naxis1, naxis2, naxis3) = image_axes(width, height, format);
    proof {
        reveal_strlit("NAXIS1");
        reveal_strlit("NAXIS2");
        reveal_strlit("BZERO");
        reveal_strlit("axis 1 length");
        reveal_strlit("axis 2 length");
        reveal_strlit("data zero offset");
        lemma_int_value_text(naxis1);
        lemma_int_value_text(naxis2);
        lemma_fixed_value_text(spec_bzero(format));
    }
    let ghost b0 = bytes@;
    write_required_card(bytes, "NAXIS1", FitsHeaderValue::Integer(naxis1 as i64), "axis 1 length");
    write_required_card(bytes, "NAXIS2", FitsHeaderValue::Integer(naxis2 as i64), "axis 2 length");
    write_required_card(bytes, "BZERO", FitsHeaderValue::Fixed(bzero(format)), "data zero offset");
    assert(bytes@ =~= b0 + three_required(width, height, format, 3));
}

#[verifier::spinoff_prover]
#[verifier::rlimit(60)]
fn write_required_part3(bytes: &mut Vec<u8>, width: u32, height: u32, format: StandardImageFrameFormat)
    ensures
        final(bytes)@ == old(bytes)@ + three_required(width, height, format, 6),
{
    reveal(one_card);
    proof {
        reveal_strlit("BSCALE");
        reveal_strlit("LVFMT");
        reveal_strlit("EXTEND");
        reveal_strlit("data scale factor");
        reveal_strlit("original lvast frame format");
        reveal_strlit("FITS dataset may contain extensions");
        lemma_fixed_value_text(ten_billion());
        lemma_name_value_text(format);
        lemma_bool_value_text(true);
    }
    let ghost b0 = bytes@;
    write_required_card(bytes, "BSCALE", FitsHeaderValue::Fixed(10_000_000_000i64), "data scale factor");
    let name = owned(format.name());
    write_required_card(bytes, "LVFMT", FitsHeaderValue::String(name), "original lvast frame format");
    write_required_card(bytes, "EXTEND", FitsHeaderValue::Boolean(true), "FITS dataset may contain extensions");
    assert(bytes@ =~= b0 + three_required(width, height, format, 6));
}

#[verifier::spinoff_prover]
#[verifier::rlimit(60)]
fn write_required_headers(bytes: &mut Vec<u8>, width: u32, height: u32, format: StandardImageFrameFormat)
    ensures
        final(bytes)@ == old(bytes)@ + cards_bytes(required_cards(width, height, format)),
{
    reveal(one_card);
    let ghost b0 = bytes@;
    let ghost cards = required_cards(width, height, format);
    write_required_part1(bytes, width, height, format);
    write_required_part2(bytes, width, height, format);
    write_required_part3(bytes, width, height, format);
    proof {
        lemma_nine_cards(cards);
        assert(bytes@ =~= b0 + cards_bytes(cards.take(9)));
    }
    let (naxis, naxis1, naxis2, naxis3) = image_axes(width, height, format);
    if let Some(naxis3) = naxis3 {
        proof {
            reveal_strlit("NAXIS3");
            reveal_strlit("axis 3 length");
            lemma_int_value_text(naxis3);
        }
        write_required_card(bytes, "NAXIS3", FitsHeaderValue::Integer(naxis3 as i64), "axis 3 length");
        proof {
            lemma_cards_take_step(cards, 9);
            assert(bytes@ =~= b0 + cards_bytes(cards.take(10)));
            assert(cards.take(10) =~= cards);
        }
    } else {
        assert(cards.take(9) =~= cards);
    }
}

// ---------------------------------------------------------------------------
// User header cards, pixel data and padding
// ---------------------------------------------------------------------------

/// What writing a list of user cards comes to.
pub ghost enum CardsOutcome {
    /// The cards' bytes, one after the other.
    Bytes(Seq<u8>),
    /// A card with an invalid keyword stops the writer with an error.
    BadKey,
    /// Cutting a card to 80 bytes falls inside a character.
    Panics,
}

/// `acc` put in front of the bytes of an outcome.
pub open spec fn after_bytes(acc: Seq<u8>, o: CardsOutcome) -> CardsOutcome {
    match o {
        CardsOutcome::Bytes(r) => CardsOutcome::Bytes(acc + r),
        _ => o,
    }
}

/// Writing user cards in order: managed keywords are skipped, the first
/// invalid keyword stops the writer.
pub open spec fn user_cards(hs: Seq<HeaderCard>) -> CardsOutcome
    decreases hs.len(),
{
    if hs.len() == 0 {
        CardsOutcome::Bytes(Seq::empty())
    } else {
        let h = hs[0];
        let rest = user_cards(hs.drop_first());
        if is_managed_key(h.key@) {
            rest
        } else if !valid_header_key(h.key@) {
            CardsOutcome::BadKey
        } else {
            match card_bytes(card_text(h.key@, h.value@, h.comment@)) {
                None => CardsOutcome::Panics,
                Some(b) => after_bytes(b, rest),
            }
        }
    }
}

/// The outcome for optional user cards.
pub open spec fn optional_user_cards(hs: Option<Vec<HeaderCard>>) -> CardsOutcome {
    match hs {
        Some(v) => user_cards(v@),
        None => CardsOutcome::Bytes(Seq::empty()),
    }
}

/// FITS pixel bytes of raw camera data: 16-bit samples (stored little-endian)
/// become big-endian values shifted by 32768, a trailing odd byte is dropped;
/// other formats are kept as they are.
pub open spec fn fits_data(data: Seq<u8>, f: StandardImageFrameFormat) -> Seq<u8> {
    if is_wide_raw(f) {
        Seq::new(
            ((data.len() / 2) * 2) as nat,
            |i: int|
                if i % 2 == 0 {
                    data[i + 1] ^ 0x80u8
                } else {
                    data[i - 1]
                },
        )
    } else {
        data
    }
}

/// Camera bytes of FITS pixel data: the inverse of [`fits_data`].
pub open spec fn camera_data(data: Seq<u8>, f: StandardImageFrameFormat) -> Seq<u8> {
    if is_wide_raw(f) {
        Seq::new(
            ((data.len() / 2) * 2) as nat,
            |i: int|
                if i % 2 == 0 {
                    data[i + 1]
                } else {
                    data[i - 1] ^ 0x80u8
                },
        )
    } else {
        data
    }
}

/// Number of bytes that fill `n` up to a multiple of the FITS block size.
pub open spec fn block_padding(n: nat) -> nat {
    ((2880 - (n % 2880)) % 2880) as nat
}

/// `bytes` padded with spaces to a multiple of the FITS block size.
pub open spec fn pad_block(bytes: Seq<u8>) -> Seq<u8> {
    bytes + Seq::new(block_padding(bytes.len()), |i: int| 32u8)
}

/// The whole FITS file for a frame, or `None` where the writer reports an
/// error.
pub open spec fn fits_file(
    w: u32,
    h: u32,
    f: StandardImageFrameFormat,
    data: Seq<u8>,
    hs: Option<Vec<HeaderCard>>,
) -> Option<Seq<u8>> {
    if data.len() != frame_len(w, h, f) {
        None
    } else {
        match optional_user_cards(hs) {
            CardsOutcome::Bytes(u) => Some(
                pad_block(
                    pad_block(cards_bytes(required_cards(w, h, f)) + u + end_card()) + fits_data(
                        data,
                        f,
                    ),
                ),
            ),
            _ => None,
        }
    }
}

/// Converts camera pixel bytes to FITS pixel bytes.
pub fn fits_data_bytes(data: Vec<u8>, format: StandardImageFrameFormat) -> (r: Vec<u8>)
    ensures
        r@ == fits_data(data@, format),
{
    if !format_is_wide_raw(format) {
        return data;
    }
    let mut r: Vec<u8> = Vec::new();
    let mut i: usize = 0;
    while i + 1 < data.len()
        invariant
            i % 2 == 0,
            i <= data.len(),
            r@.len() == i,
            forall|j: int|
                0 <= j < i ==> #[trigger] r@[j] == (if j % 2 == 0 {
                    data@[j + 1] ^ 0x80u8
                } else {
                    data@[j - 1]
                }),
        decreases data.len() - i,
    {
        r.push(data[i + 1] ^ 0x80u8);
        r.push(data[i]);
        i = i + 2;
    }
    assert(i == (data@.len() / 2) * 2);
    assert(r@ =~= fits_data(data@, format));
    r
}

/// Converts FITS pixel bytes back to camera pixel bytes.
pub fn read_fits_data(data: &[u8], format: StandardImageFrameFormat) -> (r: Vec<u8>)
    ensures
        r@ == camera_data(data@, format),
{
    if !format_is_wide_raw(format) {
        return slice_to_vec(data);
    }
    let mut r: Vec<u8> = Vec::new();
    let mut i: usize = 0;
    while i + 1 < data.len()
        invariant
            i % 2 == 0,
            i <= data.len(),
            r@.len() == i,
            forall|j: int|
                0 <= j < i ==> #[trigger] r@[j] == (if j % 2 == 0 {
                    data@[j + 1]
                } else {
                    data@[j - 1] ^ 0x80u8
                }),
        decreases data.len() - i,
    {
        r.push(data[i + 1]);
        r.push(data[i] ^ 0x80u8);
        i = i + 2;
    }
    assert(i == (data@.len() / 2) * 2);
    assert(r@ =~= camera_data(data@, format));
    r
}

/// Whether `format` stores 16-bit samples.
fn format_is_wide_raw(format: StandardImageFrameFormat) -> (r: bool)
    ensures
        r == is_wide_raw(format),
{
    match format {
        StandardImageFrameFormat::RAW8
        | StandardImageFrameFormat::RGB24
        | StandardImageFrameFormat::RGB32 => false,
        _ => true,
    }
}

/// A copy of a byte slice.
fn slice_to_vec(data: &[u8]) -> (r: Vec<u8>)
    ensures
        r@ == data@,
{
    let mut r: Vec<u8> = Vec::new();
    let mut i: usize = 0;
    while i < data.len()
        invariant
            i <= data.len(),
            r@ == data@.subrange(0, i as int),
        decreases data.len() - i,
    {
        r.push(data[i]);
        i = i + 1;
    }
    assert(r@ =~= data@);
    r
}

/// Pads `bytes` with spaces to a multiple of the FITS block size.
pub fn pad_to_fits_block(bytes: &mut Vec<u8>)
    ensures
        final(bytes)@ == pad_block(old(bytes)@),
{
    let padding = (FITS_BLOCK_SIZE - (bytes.len() % FITS_BLOCK_SIZE)) % FITS_BLOCK_SIZE;
    let ghost b0 = bytes@;
    let mut k: usize = 0;
    while k < padding
        invariant
            k <= padding,
            padding == block_padding(b0.len()),
            bytes@ == b0 + Seq::new(k as nat, |i: int| 32u8),
        decreases padding - k,
    {
        bytes.push(32u8);
        k = k + 1;
        assert(bytes@ =~= b0 + Seq::new(k as nat, |i: int| 32u8));
    }
}

/// Appends `src` to `dst`.
fn append_bytes(dst: &mut Vec<u8>, src: &[u8])
    ensures
        final(dst)@ == old(dst)@ + src@,
{
    let ghost d0 = dst@;
    let mut i: usize = 0;
    while i < src.len()
        invariant
            i <= src.len(),
            dst@ == d0 + src@.subrange(0, i as int),
        decreases src.len() - i,
    {
        dst.push(src[i]);
        i = i + 1;
        assert(dst@ =~= d0 + src@.subrange(0, i as int));
    }
    assert(src@.subrange(0, src@.len() as int) =~= src@);
}

proof fn lemma_user_cards_step(hs: Seq<HeaderCard>, i: int)
    requires
        0 <= i < hs.len(),
    ensures
        user_cards(hs.subrange(i, hs.len() as int)) == {
            let h = hs[i];
            let rest = user_cards(hs.subrange(i + 1, hs.len() as int));
            if is_managed_key(h.key@) {
                rest
            } else if !valid_header_key(h.key@) {
                CardsOutcome::BadKey
            } else {
                match card_bytes(card_text(h.key@, h.value@, h.comment@)) {
                    None => CardsOutcome::Panics,
                    Some(b) => after_bytes(b, rest),
                }
            }
        },
{
    let s = hs.subrange(i, hs.len() as int);
    assert(s.drop_first() =~= hs.subrange(i + 1, hs.len() as int));
    assert(s[0] == hs[i]);
}

/// Writes the user cards of `hs` in order.
#[verifier::spinoff_prover]
#[verifier::rlimit(60)]
fn write_user_cards(bytes: &mut Vec<u8>, hs: &Vec<HeaderCard>) -> (r: Result<(), VastError>)
    requires
        !(user_cards(hs@) is Panics),
    ensures
        match user_cards(hs@) {
            CardsOutcome::Bytes(u) => r is Ok && final(bytes)@ == old(bytes)@ + u,
            _ => r is Err && r->Err_0.error_type == VastErrorType::FileError,
        },
{
    let ghost b0 = bytes@;
    let ghost mut acc: Seq<u8> = Seq::empty();
    let mut i: usize = 0;
    proof {
        assert(hs@.subrange(0, hs@.len() as int) =~= hs@);
        match user_cards(hs@) {
            CardsOutcome::Bytes(u) => {
                assert(Seq::<u8>::empty() + u =~= u);
            },
            _ => {},
        }
    }
    while i < hs.len()
        invariant
            i <= hs.len(),
            bytes@ == b0 + acc,
            user_cards(hs@) == after_bytes(acc, user_cards(hs@.subrange(i as int, hs@.len() as int))),
            !(user_cards(hs@) is Panics),
        decreases hs.len() - i,
    {
        proof {
            lemma_user_cards_step(hs@, i as int);
        }
        let h = &hs[i];
        let key_chars = str_chars(h.key);
        if !is_managed_header(key_chars.as_slice()) {
            let ghost before = bytes@;
            let r = write_header_card(bytes, h.key, &h.value, h.comment);
            match r {
                Err(e) => {
                    return Err(e);
                },
                Ok(()) => {
                    proof {
                        let b = card_bytes(card_text(h.key@, h.value@, h.comment@))->0;
                        let rest = user_cards(hs@.subrange(i + 1, hs@.len() as int));
                        match rest {
                            CardsOutcome::Bytes(t) => {
                                assert(acc + (b + t) =~= (acc + b) + t);
                            },
                            _ => {},
                        }
                        acc = acc + b;
                        assert(bytes@ =~= b0 + acc);
                    }
                },
            }
        }
        i = i + 1;
    }
    proof {
        assert(hs@.subrange(i as int, hs@.len() as int) =~= Seq::<HeaderCard>::empty());
        assert(acc + Seq::<u8>::empty() =~= acc);
    }
    Ok(())
}

impl ImageSaver for FitsImageSaver {
    open spec fn saver_formats(&self) -> Seq<StandardImageFrameFormat> {
        all_formats()
    }

    fn supported_formats(&self) -> (r: &'static [StandardImageFrameFormat]) {
        all_formats_exec()
    }

    open spec fn encode_accepts(&self, data: Seq<u8>, image_headers: Option<Vec<HeaderCard>>) -> bool {
        data.len() == frame_len(self.width, self.height, self.format) ==> !(optional_user_cards(
            image_headers,
        ) is Panics)
    }

    fn encode(&self, data: Vec<u8>, image_headers: Option<Vec<HeaderCard>>) -> (r: Result<Vec<u8>, VastError>)
        ensures
            match r {
                Ok(b) => fits_file(self.width, self.height, self.format, data@, image_headers) == Some(
                    b@,
                ),
                Err(e) => fits_file(self.width, self.height, self.format, data@, image_headers) is None
                    && e.error_type == VastErrorType::FileError,
            },
    {
        let data_len = data.len();
        let expected_len = match expected_data_len(self.width, self.height, self.format) {
            Some(n) => n,
            None => {
                return Err(file_error(owned("FITS image dimensions overflow")));
            },
        };
        if data_len != expected_len {
            let mut m = owned("invalid FITS image data length: got ");
            push_decimal(&mut m, data.len() as u64);
            push_str(&mut m, ", expected ");
            push_decimal(&mut m, expected_len as u64);
            return Err(file_error(m));
        }
        let mut bytes: Vec<u8> = Vec::new();
        write_required_headers(&mut bytes, self.width, self.height, self.format);
        let ghost head = bytes@;
        match &image_headers {
            Some(hs) => {
                let r = write_user_cards(&mut bytes, hs);
                if let Err(e) = r {
                    return Err(e);
                }
            },
            None => {
                assert(bytes@ =~= head + Seq::<u8>::empty());
            },
        }
        write_end_card(&mut bytes);
        pad_to_fits_block(&mut bytes);
        let pixels = fits_data_bytes(data, self.format);
        append_bytes(&mut bytes, pixels.as_slice());
        pad_to_fits_block(&mut bytes);
        Ok(bytes)
    }
}

} // verus!
