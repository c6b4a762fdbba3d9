//! Text helpers shared by the protocol and file-format code: decimal and
//! hexadecimal rendering and parsing, padding and trimming, all specified over
//! `Seq<char>`.

use vstd::prelude::*;
use vstd::string::StringExecFns;
use vstd::utf8::{decode_utf8, encode_scalar, encode_utf8, valid_utf8};

verus! {

// ---------------------------------------------------------------------------
// Characters
// ---------------------------------------------------------------------------

/// ASCII digit `d` (for `d < 10`).
pub open spec fn digit_char(d: nat) -> char {
    ((d + 48) as u32) as char
}

/// `c` is an ASCII decimal digit.
pub open spec fn is_digit(c: char) -> bool {
    '0' <= c && c <= '9'
}

/// Numeric value of an ASCII decimal digit.
pub open spec fn digit_value(c: char) -> nat {
    (c as int - 48) as nat
}

/// Unicode `White_Space`, the set that `char::is_whitespace` and `str::trim` use.
pub open spec fn is_whitespace(c: char) -> bool {
    ||| ('\u{9}' <= c && c <= '\u{d}')
    ||| c == ' '
    ||| c == '\u{85}'
    ||| c == '\u{a0}'
    ||| c == '\u{1680}'
    ||| ('\u{2000}' <= c && c <= '\u{200a}')
    ||| c == '\u{2028}'
    ||| c == '\u{2029}'
    ||| c == '\u{202f}'
    ||| c == '\u{205f}'
    ||| c == '\u{3000}'
}

pub fn is_whitespace_exec(c: char) -> (b: bool)
    ensures
        b == is_whitespace(c),
{
    ('\u{9}' <= c && c <= '\u{d}') || c == ' ' || c == '\u{85}' || c == '\u{a0}' || c
        == '\u{1680}' || ('\u{2000}' <= c && c <= '\u{200a}') || c == '\u{2028}' || c
        == '\u{2029}' || c == '\u{202f}' || c == '\u{205f}' || c == '\u{3000}'
}

pub fn digit_char_exec(d: u8) -> (c: char)
    requires
        d < 10,
    ensures
        c == digit_char(d as nat),
        is_digit(c),
        digit_value(c) == d,
{
    let c = (d + 48) as char;
    assert(c as u32 == d + 48);
    c
}

// ---------------------------------------------------------------------------
// Building strings
// ---------------------------------------------------------------------------

/// Appends one character to `s` (`String::push`).
#[verifier::external_body]
pub fn push_char(s: &mut String, c: char)
    ensures
        final(s)@ == old(s)@.push(c),
{
    s.push(c);
}

/// Appends the characters of a string slice.
pub fn push_str(out: &mut String, s: &str)
    ensures
        final(out)@ == old(out)@ + s@,
{
    out.append(s);
}

/// An owned copy of a string slice.
pub fn owned(s: &str) -> (r: String)
    ensures
        r@ == s@,
{
    String::from_str(s)
}

/// Appends `n` copies of `c`.
pub fn push_repeat(s: &mut String, c: char, n: usize)
    ensures
        final(s)@ == old(s)@ + Seq::new(n as nat, |_i: int| c),
{
    let mut i: usize = 0;
    while i < n
        invariant
            i <= n,
            s@ == old(s)@ + Seq::new(i as nat, |_i: int| c),
        decreases n - i,
    {
        push_char(s, c);
        i = i + 1;
        assert(s@ =~= old(s)@ + Seq::new(i as nat, |_i: int| c));
    }
}

/// Appends the characters of `v`.
pub fn push_chars(s: &mut String, v: &[char])
    ensures
        final(s)@ == old(s)@ + v@,
{
    let mut i: usize = 0;
    while i < v.len()
        invariant
            i <= v.len(),
            s@ == old(s)@ + v@.subrange(0, i as int),
        decreases v.len() - i,
    {
        push_char(s, v[i]);
        i = i + 1;
        assert(s@ =~= old(s)@ + v@.subrange(0, i as int));
    }
    assert(v@.subrange(0, v.len() as int) =~= v@);
}

/// Characters of a string slice.
pub fn str_chars(s: &str) -> (v: Vec<char>)
    ensures
        v@ == s@,
{
    let n = s.unicode_len();
    let mut v: Vec<char> = Vec::new();
    let mut i: usize = 0;
    while i < n
        invariant
            n == s@.len(),
            i <= n,
            v@ == s@.subrange(0, i as int),
        decreases n - i,
    {
        v.push(s.get_char(i));
        i = i + 1;
        assert(v@ =~= s@.subrange(0, i as int));
    }
    assert(s@.subrange(0, n as int) =~= s@);
    v
}

/// A `String` holding exactly `v`.
pub fn string_from_chars(v: &[char]) -> (s: String)
    ensures
        s@ == v@,
{
    let mut s = String::new();
    push_chars(&mut s, v);
    assert(s@ =~= v@);
    s
}

/// `s` padded on the left with `fill` up to `width` characters.
pub open spec fn pad_left(s: Seq<char>, width: nat, fill: char) -> Seq<char> {
    if s.len() >= width {
        s
    } else {
        Seq::new((width - s.len()) as nat, |_i: int| fill) + s
    }
}

/// `s` padded on the right with `fill` up to `width` characters.
pub open spec fn pad_right(s: Seq<char>, width: nat, fill: char) -> Seq<char> {
    if s.len() >= width {
        s
    } else {
        s + Seq::new((width - s.len()) as nat, |_i: int| fill)
    }
}

pub fn push_padded_left(out: &mut String, s: &[char], width: usize, fill: char)
    ensures
        final(out)@ == old(out)@ + pad_left(s@, width as nat, fill),
{
    if s.len() < width {
        push_repeat(out, fill, width - s.len());
    }
    push_chars(out, s);
    assert(out@ =~= old(out)@ + pad_left(s@, width as nat, fill));
}

// ---------------------------------------------------------------------------
// Decimal numbers
// ---------------------------------------------------------------------------

/// Decimal rendering of `n` without leading zeros (`"0"` for zero).
pub open spec fn decimal(n: nat) -> Seq<char>
    decreases n,
{
    if n < 10 {
        seq![digit_char(n)]
    } else {
        decimal(n / 10).push(digit_char(n % 10))
    }
}

/// Decimal rendering of a signed integer, with a leading `-` when negative.
pub open spec fn signed_decimal(v: int) -> Seq<char> {
    if v < 0 {
        seq!['-'] + decimal((-v) as nat)
    } else {
        decimal(v as nat)
    }
}

/// Decimal rendering of `n` zero-padded to at least two digits (`{:02}`).
pub open spec fn decimal2(n: nat) -> Seq<char> {
    pad_left(decimal(n), 2, '0')
}

pub fn push_decimal(out: &mut String, n: u64)
    ensures
        final(out)@ == old(out)@ + decimal(n as nat),
    decreases n,
{
    if n >= 10 {
        push_decimal(out, n / 10);
    }
    let c = digit_char_exec((n % 10) as u8);
    push_char(out, c);
    assert(out@ =~= old(out)@ + decimal(n as nat));
}

pub fn push_signed_decimal(out: &mut String, v: i64)
    ensures
        final(out)@ == old(out)@ + signed_decimal(v as int),
{
    if v < 0 {
        push_char(out, '-');
        let m: u64 = if v == i64::MIN {
            9223372036854775808u64
        } else {
            (-v) as u64
        };
        push_decimal(out, m);
        assert(out@ =~= old(out)@ + signed_decimal(v as int));
    } else {
        push_decimal(out, v as u64);
    }
}

/// Decimal text of `n`.
pub fn decimal_string(n: u64) -> (s: String)
    ensures
        s@ == decimal(n as nat),
{
    let mut s = String::new();
    push_decimal(&mut s, n);
    assert(s@ =~= decimal(n as nat));
    s
}

/// Decimal text of `n`, zero-padded to two digits.
pub fn push_decimal2(out: &mut String, n: u64)
    ensures
        final(out)@ == old(out)@ + decimal2(n as nat),
{
    let s = decimal_string(n);
    let v = str_chars(s.as_str());
    push_padded_left(out, v.as_slice(), 2, '0');
}

pub proof fn lemma_decimal_digits(n: nat)
    ensures
        decimal(n).len() > 0,
        all_digits(decimal(n)),
        digits_value(decimal(n)) == n,
        (n > 0 ==> decimal(n)[0] != '0'),
    decreases n,
{
    if n >= 10 {
        lemma_decimal_digits(n / 10);
        assert(digit_char(n % 10) as int == (n % 10) + 48);
        let d = decimal(n / 10);
        let e = d.push(digit_char(n % 10));
        assert(e.drop_last() =~= d);
        assert(e[0] == d[0]);
        assert(digits_value(e) == digits_value(d) * 10 + digit_value(digit_char(n % 10)));
    } else {
        assert(digit_char(n) as int == n + 48);
        let e = seq![digit_char(n)];
        assert(e.drop_last() =~= Seq::<char>::empty());
        assert(digits_value(e) == digits_value(e.drop_last()) * 10 + digit_value(e.last()));
    }
}

pub proof fn lemma_decimal_len_two(n: nat)
    requires
        10 <= n < 100,
    ensures
        decimal(n) == seq![digit_char(n / 10), digit_char(n % 10)],
{
    assert(decimal(n / 10) == seq![digit_char(n / 10)]);
    assert(decimal(n) =~= seq![digit_char(n / 10), digit_char(n % 10)]);
}

/// Every character of `s` is an ASCII digit.
pub open spec fn all_digits(s: Seq<char>) -> bool {
    forall|i: int| 0 <= i < s.len() ==> is_digit(#[trigger] s[i])
}

/// Value of a run of ASCII digits.
pub open spec fn digits_value(s: Seq<char>) -> nat
    decreases s.len(),
{
    if s.len() == 0 {
        0
    } else {
        digits_value(s.drop_last()) * 10 + digit_value(s.last())
    }
}

/// Rust's `FromStr` for unsigned integers (before the range check): an optional
/// `+`, then one or more ASCII digits.
pub open spec fn parse_unsigned(s: Seq<char>) -> Option<nat> {
    let body = if s.len() > 0 && s[0] == '+' {
        s.drop_first()
    } else {
        s
    };
    if body.len() > 0 && all_digits(body) {
        Some(digits_value(body))
    } else {
        None
    }
}

/// Rust's `FromStr` for signed integers (before the range check): an optional
/// `+` or `-`, then one or more ASCII digits.
pub open spec fn parse_signed(s: Seq<char>) -> Option<int> {
    if s.len() > 0 && s[0] == '-' {
        let body = s.drop_first();
        if body.len() > 0 && all_digits(body) {
            Some(-(digits_value(body) as int))
        } else {
            None
        }
    } else {
        match parse_unsigned(s) {
            Some(v) => Some(v as int),
            None => None,
        }
    }
}

/// `str::parse::<u32>`.
pub open spec fn parse_u32_spec(s: Seq<char>) -> Option<u32> {
    match parse_unsigned(s) {
        Some(v) => if v <= u32::MAX {
            Some(v as u32)
        } else {
            None
        },
        None => None,
    }
}

/// `str::parse::<i64>`.
pub open spec fn parse_i64_spec(s: Seq<char>) -> Option<i64> {
    match parse_signed(s) {
        Some(v) => if i64::MIN <= v && v <= i64::MAX {
            Some(v as i64)
        } else {
            None
        },
        None => None,
    }
}

/// `str::parse::<i32>`.
pub open spec fn parse_i32_spec(s: Seq<char>) -> Option<i32> {
    match parse_signed(s) {
        Some(v) => if i32::MIN <= v && v <= i32::MAX {
            Some(v as i32)
        } else {
            None
        },
        None => None,
    }
}

proof fn lemma_digits_value_step(s: Seq<char>, i: int)
    requires
        0 <= i < s.len(),
    ensures
        digits_value(s.subrange(0, i + 1)) == digits_value(s.subrange(0, i)) * 10 + digit_value(
            s[i],
        ),
{
    let t = s.subrange(0, i + 1);
    assert(t.drop_last() =~= s.subrange(0, i));
}

/// Reads the run of digits `s[start..]` as a number, or `None` when a
/// non-digit occurs, the run is empty, or the value exceeds `limit`.
fn parse_digit_run(s: &[char], start: usize, limit: u64) -> (r: Option<u64>)
    requires
        start <= s.len(),
        limit >= 10,
    ensures
        ({
            let body = s@.subrange(start as int, s@.len() as int);
            match r {
                Some(v) => body.len() > 0 && all_digits(body) && v == digits_value(body) && v
                    <= limit,
                None => !(body.len() > 0 && all_digits(body) && digits_value(body) <= limit),
            }
        }),
{
    let ghost body = s@.subrange(start as int, s@.len() as int);
    if start == s.len() {
        return None;
    }
    let mut acc: u64 = 0;
    let mut i: usize = start;
    while i < s.len()
        invariant
            start <= i <= s.len(),
            body == s@.subrange(start as int, s@.len() as int),
            limit >= 10,
            all_digits(s@.subrange(start as int, i as int)),
            acc == digits_value(s@.subrange(start as int, i as int)),
            acc <= limit,
        decreases s.len() - i,
    {
        let c = s[i];
        if !('0' <= c && c <= '9') {
            assert(body[i - start] == c);
            return None;
        }
        assert(c as u32 <= 57);
        let d = (c as u32 - 48) as u64;
        proof {
            lemma_digits_value_step(body, (i - start) as int);
            assert(body.subrange(0, (i - start) as int) =~= s@.subrange(
                start as int,
                i as int,
            ));
            assert(body.subrange(0, (i - start + 1) as int) =~= s@.subrange(
                start as int,
                i + 1,
            ));
        }
        if acc > (limit - d) / 10 {
            proof {
                assert(acc * 10 + d > limit) by (nonlinear_arith)
                    requires
                        acc > (limit - d) / 10,
                ;
                if all_digits(body) {
                    lemma_digits_value_monotone(body, (i - start + 1) as int);
                }
            }
            return None;
        }
        assert(acc * 10 + d <= limit) by (nonlinear_arith)
            requires
                acc <= (limit - d) / 10,
        ;
        acc = acc * 10 + d;
        i = i + 1;
        assert(all_digits(s@.subrange(start as int, i as int)));
    }
    assert(s@.subrange(start as int, i as int) =~= body);
    Some(acc)
}

/// A digit run is at least as large as any of its digit prefixes.
proof fn lemma_digits_value_monotone(s: Seq<char>, k: int)
    requires
        0 <= k <= s.len(),
        all_digits(s),
    ensures
        digits_value(s) >= digits_value(s.subrange(0, k)),
    decreases s.len() - k,
{
    if k < s.len() {
        lemma_digits_value_monotone(s, k + 1);
        lemma_digits_value_step(s, k);
    } else {
        assert(s.subrange(0, k) =~= s);
    }
}

/// `str::parse::<u32>` on the characters `s`.
pub fn parse_u32(s: &[char]) -> (r: Option<u32>)
    ensures
        r == parse_u32_spec(s@),
{
    let start: usize = if s.len() > 0 && s[0] == '+' {
        1
    } else {
        0
    };
    proof {
        if start == 1 {
            assert(s@.drop_first() =~= s@.subrange(1, s@.len() as int));
        } else {
            assert(s@ =~= s@.subrange(0, s@.len() as int));
        }
    }
    match parse_digit_run(s, start, 4294967295u64) {
        Some(v) => Some(v as u32),
        None => None,
    }
}

/// `str::parse::<usize>`.
pub open spec fn parse_usize_spec(s: Seq<char>) -> Option<usize> {
    match parse_unsigned(s) {
        Some(v) => if v <= usize::MAX {
            Some(v as usize)
        } else {
            None
        },
        None => None,
    }
}

/// `str::parse::<usize>` on the characters `s`.
pub fn parse_usize(s: &[char]) -> (r: Option<usize>)
    ensures
        r == parse_usize_spec(s@),
{
    let start: usize = if s.len() > 0 && s[0] == '+' {
        1
    } else {
        0
    };
    proof {
        if start == 1 {
            assert(s@.drop_first() =~= s@.subrange(1, s@.len() as int));
        } else {
            assert(s@ =~= s@.subrange(0, s@.len() as int));
        }
    }
    match parse_digit_run(s, start, usize::MAX as u64) {
        Some(v) => Some(v as usize),
        None => None,
    }
}

/// `str::parse::<i64>` on the characters `s`.
pub fn parse_i64(s: &[char]) -> (r: Option<i64>)
    ensures
        r == parse_i64_spec(s@),
{
    if s.len() > 0 && s[0] == '-' {
        proof {
            assert(s@.drop_first() =~= s@.subrange(1, s@.len() as int));
        }
        match parse_digit_run(s, 1, 9223372036854775808u64) {
            Some(v) => {
                if v == 9223372036854775808u64 {
                    Some(i64::MIN)
                } else {
                    Some(-(v as i64))
                }
            },
            None => None,
        }
    } else {
        let start: usize = if s.len() > 0 && s[0] == '+' {
            1
        } else {
            0
        };
        proof {
            if start == 1 {
                assert(s@.drop_first() =~= s@.subrange(1, s@.len() as int));
            } else {
                assert(s@ =~= s@.subrange(0, s@.len() as int));
            }
        }
        match parse_digit_run(s, start, 9223372036854775807u64) {
            Some(v) => Some(v as i64),
            None => None,
        }
    }
}

/// `str::parse::<i32>` on the characters `s`.
pub fn parse_i32(s: &[char]) -> (r: Option<i32>)
    ensures
        r == parse_i32_spec(s@),
{
    match parse_i64(s) {
        Some(v) => {
            if -2147483648i64 <= v && v <= 2147483647i64 {
                Some(v as i32)
            } else {
                None
            }
        },
        None => None,
    }
}

/// A leading zero does not change the value of a run of digits.
pub proof fn lemma_leading_zero(d: Seq<char>)
    ensures
        digits_value(seq!['0'] + d) == digits_value(d),
    decreases d.len(),
{
    let s = seq!['0'] + d;
    if d.len() == 0 {
        assert(s.drop_last() =~= Seq::<char>::empty());
        assert(digit_value('0') == 0);
        assert(digits_value(s) == digits_value(s.drop_last()) * 10 + digit_value(s.last()));
    } else {
        assert(s.drop_last() =~= seq!['0'] + d.drop_last());
        lemma_leading_zero(d.drop_last());
        assert(s.last() == d.last());
        assert(digits_value(s) == digits_value(s.drop_last()) * 10 + digit_value(s.last()));
        assert(digits_value(d) == digits_value(d.drop_last()) * 10 + digit_value(d.last()));
    }
}

/// Parsing the two-digit rendering of `n` gives `n` back.
pub proof fn lemma_parse_decimal2(n: nat)
    ensures
        parse_unsigned(decimal2(n)) == Some(n),
        decimal2(n).len() > 0,
        all_digits(decimal2(n)),
        decimal2(n)[0] != '-',
{
    lemma_decimal_digits(n);
    let d = decimal(n);
    if d.len() < 2 {
        assert(decimal2(n) =~= seq!['0'] + d);
        lemma_leading_zero(d);
        assert(is_digit('0'));
        assert forall|i: int| 0 <= i < decimal2(n).len() implies is_digit(#[trigger] decimal2(n)[i]) by {
            if i >= 1 {
                assert(decimal2(n)[i] == d[i - 1]);
            }
        }
    } else {
        assert(is_digit(d[0]));
    }
}

/// Parsing the rendering of `n` gives `n` back.
pub proof fn lemma_parse_decimal(n: nat)
    ensures
        parse_unsigned(decimal(n)) == Some(n),
{
    lemma_decimal_digits(n);
    assert(is_digit(decimal(n)[0]));
}

/// Leading zeros do not change the value of a run of digits.
pub proof fn lemma_leading_zeros(m: nat, d: Seq<char>)
    ensures
        digits_value(Seq::new(m, |_i: int| '0') + d) == digits_value(d),
        all_digits(d) ==> all_digits(Seq::new(m, |_i: int| '0') + d),
    decreases m,
{
    let z = Seq::new(m, |_i: int| '0');
    if m > 0 {
        let z1 = Seq::new((m - 1) as nat, |_i: int| '0');
        lemma_leading_zeros((m - 1) as nat, d);
        assert(z + d =~= seq!['0'] + (z1 + d));
        lemma_leading_zero(z1 + d);
        assert(is_digit('0'));
        if all_digits(d) {
            assert forall|i: int| 0 <= i < (z + d).len() implies is_digit(#[trigger] (z + d)[i]) by {
                if i >= m {
                    assert((z + d)[i] == d[i - m]);
                }
            }
        }
    } else {
        assert(z + d =~= d);
    }
}

/// Parsing the zero-padded rendering of `n` gives `n` back.
pub proof fn lemma_parse_padded(n: nat, width: nat)
    ensures
        parse_unsigned(pad_left(decimal(n), width, '0')) == Some(n),
        all_digits(pad_left(decimal(n), width, '0')),
        pad_left(decimal(n), width, '0').len() > 0,
{
    lemma_decimal_digits(n);
    let d = decimal(n);
    if d.len() < width {
        lemma_leading_zeros((width - d.len()) as nat, d);
    }
    let p = pad_left(d, width, '0');
    assert(is_digit(p[0]));
}

/// `10` to the power `k`.
pub open spec fn pow10(k: nat) -> nat
    decreases k,
{
    if k == 0 {
        1
    } else {
        10 * pow10((k - 1) as nat)
    }
}

/// A number below `10^k` has at most `k` decimal digits.
pub proof fn lemma_decimal_len_bound(n: nat, k: nat)
    requires
        n < pow10(k),
        k >= 1,
    ensures
        decimal(n).len() <= k,
    decreases k,
{
    if n >= 10 {
        if k == 1 {
            assert(pow10(1) == 10) by {
                reveal_with_fuel(pow10, 2);
            }
        } else {
            let p = pow10((k - 1) as nat);
            assert(n / 10 < p) by (nonlinear_arith)
                requires
                    n < 10 * p,
            ;
            lemma_decimal_len_bound(n / 10, (k - 1) as nat);
        }
    }
}

/// Every `u64` has at most twenty decimal digits.
pub proof fn lemma_decimal_len_u64(n: u64)
    ensures
        decimal(n as nat).len() <= 20,
{
    assert(pow10(20) == 100000000000000000000) by {
        reveal_with_fuel(pow10, 21);
    }
    lemma_decimal_len_bound(n as nat, 20);
}

/// Every `u32` has at most ten decimal digits.
pub proof fn lemma_decimal_len_u32(n: u32)
    ensures
        decimal(n as nat).len() <= 10,
{
    assert(pow10(10) == 10000000000) by {
        reveal_with_fuel(pow10, 11);
    }
    lemma_decimal_len_bound(n as nat, 10);
}

pub proof fn lemma_parse_signed_decimal(v: int)
    ensures
        parse_signed(signed_decimal(v)) == Some(v),
{
    if v < 0 {
        lemma_decimal_digits((-v) as nat);
        let s = signed_decimal(v);
        assert(s.drop_first() =~= decimal((-v) as nat));
    } else {
        lemma_parse_decimal(v as nat);
        lemma_decimal_digits(v as nat);
        assert(is_digit(decimal(v as nat)[0]));
    }
}

// ---------------------------------------------------------------------------
// Trimming
// ---------------------------------------------------------------------------

/// `s` without its leading characters that satisfy `p`.
pub open spec fn strip_start(s: Seq<char>, p: spec_fn(char) -> bool) -> Seq<char>
    decreases s.len(),
{
    if s.len() > 0 && p(s[0]) {
        strip_start(s.drop_first(), p)
    } else {
        s
    }
}

/// `s` without its trailing characters that satisfy `p`.
pub open spec fn strip_end(s: Seq<char>, p: spec_fn(char) -> bool) -> Seq<char>
    decreases s.len(),
{
    if s.len() > 0 && p(s.last()) {
        strip_end(s.drop_last(), p)
    } else {
        s
    }
}

/// `str::trim`.
pub open spec fn trim(s: Seq<char>) -> Seq<char> {
    strip_end(strip_start(s, |c: char| is_whitespace(c)), |c: char| is_whitespace(c))
}

/// `str::trim_matches(c)` for a single character.
pub open spec fn trim_char(s: Seq<char>, c: char) -> Seq<char> {
    strip_end(strip_start(s, is_char(c)), is_char(c))
}

/// The predicate "equals `c`".
pub open spec fn is_char(c: char) -> spec_fn(char) -> bool {
    |x: char| x == c
}

pub proof fn lemma_strip_start_skip(s: Seq<char>, p: spec_fn(char) -> bool, i: int)
    requires
        0 <= i <= s.len(),
        forall|j: int| 0 <= j < i ==> p(#[trigger] s[j]),
    ensures
        strip_start(s, p) == strip_start(s.subrange(i, s.len() as int), p),
    decreases i,
{
    if i > 0 {
        assert(s.drop_first().subrange(i - 1, s.drop_first().len() as int) =~= s.subrange(
            i,
            s.len() as int,
        ));
        lemma_strip_start_skip(s.drop_first(), p, i - 1);
    } else {
        assert(s.subrange(0, s.len() as int) =~= s);
    }
}

pub proof fn lemma_strip_end_skip(s: Seq<char>, p: spec_fn(char) -> bool, i: int)
    requires
        0 <= i <= s.len(),
        forall|j: int| i <= j < s.len() ==> p(#[trigger] s[j]),
    ensures
        strip_end(s, p) == strip_end(s.subrange(0, i), p),
    decreases s.len() - i,
{
    if i < s.len() {
        assert(s.drop_last().subrange(0, i) =~= s.subrange(0, i));
        lemma_strip_end_skip(s.drop_last(), p, i);
    } else {
        assert(s.subrange(0, i) =~= s);
    }
}

/// Text that neither starts nor ends with whitespace is its own trim.
pub proof fn lemma_trim_plain(s: Seq<char>)
    requires
        s.len() > 0,
        !is_whitespace(s[0]),
        !is_whitespace(s.last()),
    ensures
        trim(s) == s,
{
}

/// Text that neither starts nor ends with `c` is left alone by `trim_char`.
pub proof fn lemma_trim_char_plain(s: Seq<char>, c: char)
    requires
        s.len() > 0,
        s[0] != c,
        s.last() != c,
    ensures
        trim_char(s, c) == s,
{
}

/// Leading spaces and one trailing space around plain text are trimmed away.
pub proof fn lemma_trim_framed(core: Seq<char>, m: nat)
    requires
        core.len() > 0,
        !is_whitespace(core[0]),
        !is_whitespace(core.last()),
    ensures
        trim(Seq::new(m, |_i: int| ' ') + core + seq![' ']) == core,
{
    let p = |c: char| is_whitespace(c);
    let s = Seq::new(m, |_i: int| ' ') + core + seq![' '];
    assert forall|j: int| 0 <= j < m implies p(#[trigger] s[j]) by {
        assert(s[j] == ' ');
    }
    lemma_strip_start_skip(s, p, m as int);
    let t = s.subrange(m as int, s.len() as int);
    assert(t =~= core + seq![' ']);
    assert(t[0] == core[0]);
    assert(strip_start(t, p) == t);
    assert(t.drop_last() =~= core);
    assert(strip_end(t, p) == strip_end(core, p));
}

/// Padding plain text with spaces is undone by `trim`.
pub proof fn lemma_trim_padded(s: Seq<char>, width: nat)
    requires
        s.len() > 0,
        !is_whitespace(s[0]),
        !is_whitespace(s.last()),
    ensures
        trim(pad_left(s, width, ' ')) == s,
        trim(pad_right(s, width, ' ')) == s,
{
    let p = |c: char| is_whitespace(c);
    if s.len() < width {
        let m = (width - s.len()) as nat;
        let l = pad_left(s, width, ' ');
        assert forall|j: int| 0 <= j < m implies p(#[trigger] l[j]) by {
            assert(l[j] == ' ');
        }
        lemma_strip_start_skip(l, p, m as int);
        assert(l.subrange(m as int, l.len() as int) =~= s);
        let r = pad_right(s, width, ' ');
        assert(r[0] == s[0]);
        assert(strip_start(r, p) == r);
        assert forall|j: int| s.len() <= j < r.len() implies p(#[trigger] r[j]) by {
            assert(r[j] == ' ');
        }
        lemma_strip_end_skip(r, p, s.len() as int);
        assert(r.subrange(0, s.len() as int) =~= s);
    }
}

/// Bounds `[a, b)` of `trim(s)` inside `s`.
pub fn trim_bounds(s: &[char]) -> (r: (usize, usize))
    ensures
        r.0 <= r.1 <= s.len(),
        trim(s@) == s@.subrange(r.0 as int, r.1 as int),
{
    let ghost p = |c: char| is_whitespace(c);
    let mut a: usize = 0;
    while a < s.len() && is_whitespace_exec(s[a])
        invariant
            a <= s.len(),
            p == (|x: char| is_whitespace(x)),
            forall|j: int| 0 <= j < a ==> p(#[trigger] s@[j]),
        decreases s.len() - a,
    {
        assert(p(s@[a as int]));
        a = a + 1;
    }
    proof {
        lemma_strip_start_skip(s@, p, a as int);
    }
    let ghost rest = s@.subrange(a as int, s@.len() as int);
    assert(strip_start(rest, p) == rest);
    let mut b: usize = s.len();
    while b > a && is_whitespace_exec(s[b - 1])
        invariant
            a <= b <= s.len(),
            rest == s@.subrange(a as int, s@.len() as int),
            p == (|x: char| is_whitespace(x)),
            forall|j: int| b <= j < s.len() ==> p(#[trigger] s@[j]),
        decreases b,
    {
        assert(p(s@[b - 1]));
        b = b - 1;
    }
    proof {
        assert forall|j: int| (b - a) <= j < rest.len() implies p(#[trigger] rest[j]) by {
            assert(rest[j] == s@[j + a]);
        }
        lemma_strip_end_skip(rest, p, (b - a) as int);
        assert(rest.subrange(0, (b - a) as int) =~= s@.subrange(a as int, b as int));
        let t = s@.subrange(a as int, b as int);
        if t.len() > 0 {
            assert(t.last() == s@[b - 1]);
        }
    }
    (a, b)
}

/// Bounds `[a, b)` of `trim_char(s, c)` inside `s`.
pub fn trim_char_bounds(s: &[char], c: char) -> (r: (usize, usize))
    ensures
        r.0 <= r.1 <= s.len(),
        trim_char(s@, c) == s@.subrange(r.0 as int, r.1 as int),
{
    let ghost p = is_char(c);
    let mut a: usize = 0;
    while a < s.len() && s[a] == c
        invariant
            a <= s.len(),
            p == is_char(c),
            forall|j: int| 0 <= j < a ==> p(#[trigger] s@[j]),
        decreases s.len() - a,
    {
        assert(p(s@[a as int]));
        a = a + 1;
    }
    proof {
        lemma_strip_start_skip(s@, p, a as int);
    }
    let ghost rest = s@.subrange(a as int, s@.len() as int);
    assert(strip_start(rest, p) == rest);
    let mut b: usize = s.len();
    while b > a && s[b - 1] == c
        invariant
            a <= b <= s.len(),
            rest == s@.subrange(a as int, s@.len() as int),
            p == is_char(c),
            forall|j: int| b <= j < s.len() ==> p(#[trigger] s@[j]),
        decreases b,
    {
        assert(p(s@[b - 1]));
        b = b - 1;
    }
    proof {
        assert forall|j: int| (b - a) <= j < rest.len() implies p(#[trigger] rest[j]) by {
            assert(rest[j] == s@[j + a]);
        }
        lemma_strip_end_skip(rest, p, (b - a) as int);
        assert(rest.subrange(0, (b - a) as int) =~= s@.subrange(a as int, b as int));
        let t = s@.subrange(a as int, b as int);
        if t.len() > 0 {
            assert(t.last() == s@[b - 1]);
        }
    }
    (a, b)
}

/// `trim(s)` as a new vector.
pub fn trimmed(s: &[char]) -> (v: Vec<char>)
    ensures
        v@ == trim(s@),
{
    let (a, b) = trim_bounds(s);
    slice_range(s, a, b)
}

/// `s[a..b]` as a new vector.
pub fn slice_range<T: Copy>(s: &[T], a: usize, b: usize) -> (v: Vec<T>)
    requires
        a <= b <= s.len(),
    ensures
        v@ == s@.subrange(a as int, b as int),
{
    let mut v: Vec<T> = Vec::new();
    let mut i = a;
    while i < b
        invariant
            a <= i <= b <= s.len(),
            v@ == s@.subrange(a as int, i as int),
        decreases b - i,
    {
        v.push(s[i]);
        i = i + 1;
        assert(v@ =~= s@.subrange(a as int, i as int));
    }
    v
}

/// `a == b` on characters.
pub fn chars_eq(a: &[char], b: &[char]) -> (r: bool)
    ensures
        r == (a@ == b@),
{
    if a.len() != b.len() {
        return false;
    }
    let mut i: usize = 0;
    while i < a.len()
        invariant
            a.len() == b.len(),
            i <= a.len(),
            forall|j: int| 0 <= j < i ==> a@[j] == b@[j],
        decreases a.len() - i,
    {
        if a[i] != b[i] {
            return false;
        }
        i = i + 1;
    }
    assert(a@ =~= b@);
    true
}

/// `a == s` where `s` is a string slice.
pub fn chars_eq_str(a: &[char], s: &str) -> (r: bool)
    ensures
        r == (a@ == s@),
{
    let b = str_chars(s);
    chars_eq(a, b.as_slice())
}

/// Index of the first occurrence of `c` in `s`.
pub open spec fn first_index_of(s: Seq<char>, c: char) -> Option<int> {
    if exists|i: int| 0 <= i < s.len() && s[i] == c {
        Some(choose|i: int| 0 <= i < s.len() && s[i] == c && forall|j: int| 0 <= j < i ==> s[j] != c)
    } else {
        None
    }
}

/// First index at or after `from` where `s` holds `c`.
pub fn find_char(s: &[char], c: char, from: usize) -> (r: Option<usize>)
    requires
        from <= s.len(),
    ensures
        match r {
            Some(i) => from <= i < s.len() && s@[i as int] == c && forall|j: int|
                from <= j < i ==> s@[j] != c,
            None => forall|j: int| from <= j < s.len() ==> s@[j] != c,
        },
{
    let mut i = from;
    while i < s.len()
        invariant
            from <= i <= s.len(),
            forall|j: int| from <= j < i ==> s@[j] != c,
        decreases s.len() - i,
    {
        if s[i] == c {
            return Some(i);
        }
        i = i + 1;
    }
    None
}

// ---------------------------------------------------------------------------
// UTF-8
// ---------------------------------------------------------------------------

/// `std::str::from_utf8`: the text the bytes hold, or `None` when they are not
/// valid UTF-8.
#[verifier::external_body]
pub fn str_from_utf8(bytes: &[u8]) -> (r: Option<&str>)
    ensures
        r is Some <==> valid_utf8(bytes@),
        r matches Some(s) ==> s@ == decode_utf8(bytes@),
{
    std::str::from_utf8(bytes).ok()
}

/// Number of bytes of the UTF-8 encoding of `c`.
pub fn utf8_width(c: char) -> (w: usize)
    ensures
        w == encode_scalar(c as u32).len(),
        1 <= w <= 4,
        w == 1 <==> (c as u32) < 0x80,
{
    proof {
        vstd::utf8::char_is_scalar(c);
    }
    let v = c as u32;
    if v <= 0x7F {
        1
    } else if v <= 0x7FF {
        2
    } else if v <= 0xFFFF {
        3
    } else {
        4
    }
}

/// Encoding a concatenation encodes the parts one after the other.
pub proof fn lemma_encode_concat(a: Seq<char>, b: Seq<char>)
    ensures
        encode_utf8(a + b) == encode_utf8(a) + encode_utf8(b),
    decreases a.len(),
{
    if a.len() > 0 {
        assert((a + b).drop_first() =~= a.drop_first() + b);
        lemma_encode_concat(a.drop_first(), b);
        assert((a + b)[0] == a[0]);
        assert(encode_utf8(a + b) =~= encode_scalar(a[0] as u32) + encode_utf8(a.drop_first() + b));
    } else {
        assert(a + b =~= b);
        assert(encode_utf8(a) =~= Seq::<u8>::empty());
        assert(encode_utf8(a) + encode_utf8(b) =~= encode_utf8(b));
    }
}

/// Every character of `s` is ASCII.
pub open spec fn all_ascii(s: Seq<char>) -> bool {
    forall|i: int| 0 <= i < s.len() ==> (#[trigger] s[i] as u32) < 0x80
}

/// The bytes of ASCII text, one per character.
pub open spec fn ascii_bytes(s: Seq<char>) -> Seq<u8> {
    Seq::new(s.len(), |i: int| (s[i] as u32) as u8)
}

/// ASCII text encodes to one byte per character.
pub proof fn lemma_encode_ascii(s: Seq<char>)
    requires
        all_ascii(s),
    ensures
        encode_utf8(s) == ascii_bytes(s),
    decreases s.len(),
{
    if s.len() > 0 {
        lemma_encode_ascii(s.drop_first());
        let v = s[0] as u32;
        assert(v < 0x80 ==> (v & 0x7F) as u8 == v as u8) by (bit_vector);
        assert(encode_utf8(s) =~= ascii_bytes(s));
    } else {
        assert(encode_utf8(s) =~= ascii_bytes(s));
    }
}

/// Appends `b` to `v`.
pub fn push_bytes(v: &mut Vec<u8>, b: &[u8])
    ensures
        final(v)@ == old(v)@ + b@,
{
    let mut i: usize = 0;
    while i < b.len()
        invariant
            i <= b.len(),
            v@ == old(v)@ + b@.subrange(0, i as int),
        decreases b.len() - i,
    {
        v.push(b[i]);
        i = i + 1;
        assert(v@ =~= old(v)@ + b@.subrange(0, i as int));
    }
    assert(b@.subrange(0, b.len() as int) =~= b@);
}

/// Appends the UTF-8 encoding of `s` to `v`.
pub fn push_utf8(v: &mut Vec<u8>, s: &[char])
    ensures
        final(v)@ == old(v)@ + encode_utf8(s@),
{
    let text = string_from_chars(s);
    let bytes = text.as_str().as_bytes();
    push_bytes(v, bytes);
}

/// Appends the characters of `s` to `v`.
pub fn vpush_chars(v: &mut Vec<char>, s: &[char])
    ensures
        final(v)@ == old(v)@ + s@,
{
    let mut i: usize = 0;
    while i < s.len()
        invariant
            i <= s.len(),
            v@ == old(v)@ + s@.subrange(0, i as int),
        decreases s.len() - i,
    {
        v.push(s[i]);
        i = i + 1;
        assert(v@ =~= old(v)@ + s@.subrange(0, i as int));
    }
    assert(s@.subrange(0, s.len() as int) =~= s@);
}

/// Appends the characters of a string slice to `v`.
pub fn vpush_str(v: &mut Vec<char>, s: &str)
    ensures
        final(v)@ == old(v)@ + s@,
{
    let c = str_chars(s);
    vpush_chars(v, c.as_slice());
}

/// Appends `n` copies of `c` to `v`.
pub fn vpush_repeat(v: &mut Vec<char>, c: char, n: usize)
    ensures
        final(v)@ == old(v)@ + Seq::new(n as nat, |_i: int| c),
{
    let mut i: usize = 0;
    while i < n
        invariant
            i <= n,
            v@ == old(v)@ + Seq::new(i as nat, |_i: int| c),
        decreases n - i,
    {
        v.push(c);
        i = i + 1;
        assert(v@ =~= old(v)@ + Seq::new(i as nat, |_i: int| c));
    }
}

/// Appends `s` padded on the left with `fill` to `width` characters.
pub fn vpush_padded_left(v: &mut Vec<char>, s: &[char], width: usize, fill: char)
    ensures
        final(v)@ == old(v)@ + pad_left(s@, width as nat, fill),
{
    if s.len() < width {
        vpush_repeat(v, fill, width - s.len());
    }
    vpush_chars(v, s);
    assert(v@ =~= old(v)@ + pad_left(s@, width as nat, fill));
}

/// Appends `s` padded on the right with `fill` to `width` characters.
pub fn vpush_padded_right(v: &mut Vec<char>, s: &[char], width: usize, fill: char)
    ensures
        final(v)@ == old(v)@ + pad_right(s@, width as nat, fill),
{
    vpush_chars(v, s);
    if s.len() < width {
        vpush_repeat(v, fill, width - s.len());
    }
    assert(v@ =~= old(v)@ + pad_right(s@, width as nat, fill));
}

/// Decimal characters of `n`.
pub fn decimal_chars(n: u64) -> (v: Vec<char>)
    ensures
        v@ == decimal(n as nat),
{
    let s = decimal_string(n);
    str_chars(s.as_str())
}

/// Decimal characters of a signed value.
pub fn signed_decimal_chars(n: i64) -> (v: Vec<char>)
    ensures
        v@ == signed_decimal(n as int),
{
    let mut s = String::new();
    push_signed_decimal(&mut s, n);
    assert(s@ =~= signed_decimal(n as int));
    str_chars(s.as_str())
}

} // verus!
