//! MoonLite-protocol focuser client.
use vstd::prelude::*;

use std::time::Duration;

use crate::base::errors::{VastError, VastErrorType, VastResult};
use crate::base::workers::{trim_reply, trimmed_reply, CommandChannel, ReceiveOptions};
use crate::text::{
    all_ascii, all_digits, chars_eq_str, digits_value, is_digit, lemma_trim_plain, owned, push_str, str_chars, string_from_chars, trim, trimmed,
};
use crate::types::common::TemperatureUnit;
use vstd::utf8::encode_utf8;

verus! {

/// Value of a hexadecimal digit.
pub open spec fn hex_digit(c: char) -> Option<nat> {
    if '0' <= c && c <= '9' {
        Some((c as nat - '0' as nat) as nat)
    } else if 'a' <= c && c <= 'f' {
        Some((c as nat - 'a' as nat + 10) as nat)
    } else if 'A' <= c && c <= 'F' {
        Some((c as nat - 'A' as nat + 10) as nat)
    } else {
        None
    }
}

/// Every character of `s` is a hexadecimal digit.
pub open spec fn all_hex(s: Seq<char>) -> bool {
    forall|i: int| 0 <= i < s.len() ==> #[trigger] hex_digit(s[i]) is Some
}

/// Value of a run of hexadecimal digits.
pub open spec fn hex_value(s: Seq<char>) -> nat
    decreases s.len(),
{
    if s.len() == 0 {
        0
    } else {
        hex_value(s.drop_last()) * 16 + hex_digit(s.last())->0
    }
}

/// `from_str_radix(s, 16)` for an unsigned type whose largest value is
/// `max`: an optional `+`, then one or more hexadecimal digits, at most `max`.
pub open spec fn parse_hex(s: Seq<char>, max: nat) -> Option<nat> {
    let body = if s.len() > 0 && s[0] == '+' {
        s.drop_first()
    } else {
        s
    };
    if body.len() > 0 && all_hex(body) && hex_value(body) <= max {
        Some(hex_value(body))
    } else {
        None
    }
}

proof fn lemma_hex_step(s: Seq<char>, i: int)
    requires
        0 <= i < s.len(),
    ensures
        hex_value(s.subrange(0, i + 1)) == hex_value(s.subrange(0, i)) * 16 + hex_digit(s[i])->0,
{
    assert(s.subrange(0, i + 1).drop_last() =~= s.subrange(0, i));
}

proof fn lemma_hex_monotone(s: Seq<char>, k: int)
    requires
        0 <= k <= s.len(),
        all_hex(s),
    ensures
        hex_value(s) >= hex_value(s.subrange(0, k)),
    decreases s.len() - k,
{
    if k < s.len() {
        lemma_hex_monotone(s, k + 1);
        lemma_hex_step(s, k);
    } else {
        assert(s.subrange(0, k) =~= s);
    }
}

fn hex_digit_exec(c: char) -> (r: Option<u64>)
    ensures
        match hex_digit(c) {
            Some(v) => r == Some(v as u64),
            None => r is None,
        },
{
    if '0' <= c && c <= '9' {
        Some((c as u32 - '0' as u32) as u64)
    } else if 'a' <= c && c <= 'f' {
        Some((c as u32 - 'a' as u32 + 10) as u64)
    } else if 'A' <= c && c <= 'F' {
        Some((c as u32 - 'A' as u32 + 10) as u64)
    } else {
        None
    }
}

/// `from_str_radix(s, 16)` for an unsigned type whose largest value is `max`.
pub fn parse_hex_exec(s: &[char], max: u64) -> (r: Option<u64>)
    requires
        max >= 16,
    ensures
        match parse_hex(s@, max as nat) {
            Some(v) => r == Some(v as u64),
            None => r is None,
        },
{
    let start: usize = if s.len() > 0 && s[0] == '+' {
        1
    } else {
        0
    };
    let ghost body = if s@.len() > 0 && s@[0] == '+' {
        s@.drop_first()
    } else {
        s@
    };
    assert(body =~= s@.subrange(start as int, s@.len() as int));
    if start == s.len() {
        return None;
    }
    let mut acc: u64 = 0;
    let mut i: usize = start;
    while i < s.len()
        invariant
            start <= i <= s.len(),
            body == s@.subrange(start as int, s@.len() as int),
            body == (if s@.len() > 0 && s@[0] == '+' {
                s@.drop_first()
            } else {
                s@
            }),
            max >= 16,
            all_hex(s@.subrange(start as int, i as int)),
            acc == hex_value(s@.subrange(start as int, i as int)),
            acc <= max,
        decreases s.len() - i,
    {
        let c = s[i];
        let d = match hex_digit_exec(c) {
            Some(d) => d,
            None => {
                assert(body[i - start] == c);
                assert(hex_digit(body[i - start]) is None);
                assert(!all_hex(body));
                assert(parse_hex(s@, max as nat) is None);
                return None;
            },
        };
        proof {
            lemma_hex_step(body, (i - start) as int);
            assert(body.subrange(0, (i - start) as int) =~= s@.subrange(start as int, i as int));
            assert(body.subrange(0, (i - start + 1) as int) =~= s@.subrange(start as int, i + 1));
        }
        if acc > (max - d) / 16 {
            proof {
                assert(acc * 16 + d > max) by (nonlinear_arith)
                    requires
                        acc > (max - d) / 16,
                ;
                if all_hex(body) {
                    lemma_hex_monotone(body, (i - start + 1) as int);
                    assert(hex_value(body) > max);
                }
                assert(parse_hex(s@, max as nat) is None);
            }
            return None;
        }
        assert(acc * 16 + d <= max) by (nonlinear_arith)
            requires
                acc <= (max - d) / 16,
        ;
        acc = acc * 16 + d;
        i = i + 1;
        assert(all_hex(s@.subrange(start as int, i as int)));
    }
    assert(s@.subrange(start as int, i as int) =~= body);
    assert(body.len() > 0 && all_hex(body) && hex_value(body) <= max);
    assert(parse_hex(s@, max as nat) == Some(acc as nat));
    Some(acc)
}

/// An invalid-input error.
fn invalid_input(message: &str) -> (e: VastError)
    ensures
        e.error_type == VastErrorType::InvalidInput,
{
    VastError::new(VastErrorType::InvalidInput, owned(message))
}

/// A connection error.
fn connection_error(message: &str) -> (e: VastError)
    ensures
        e.error_type == VastErrorType::ConnectionError,
{
    VastError::new(VastErrorType::ConnectionError, owned(message))
}

/// A position reply: hexadecimal `u32`.
pub fn parse_hex_u32(value: &str) -> (r: VastResult<u32>)
    ensures
        match parse_hex(trim(value@), 0xFFFF_FFFF) {
            Some(v) => r matches Ok(x) && x == v,
            None => r matches Err(e) && e.error_type == VastErrorType::InvalidInput,
        },
{
    let c = str_chars(value);
    let t = trimmed(c.as_slice());
    match parse_hex_exec(t.as_slice(), 0xFFFF_FFFFu64) {
        Some(v) => Ok(v as u32),
        None => Err(invalid_input("Invalid Moonlight hexadecimal value")),
    }
}

/// A temperature reply: hexadecimal `u16` read as a two's-complement `i16`.
pub fn parse_hex_i16(value: &str) -> (r: VastResult<i16>)
    ensures
        match parse_hex(trim(value@), 0xFFFF) {
            Some(v) => r matches Ok(x) && x == (if v < 0x8000 {
                v as int
            } else {
                v - 0x10000
            }),
            None => r matches Err(e) && e.error_type == VastErrorType::InvalidInput,
        },
{
    let c = str_chars(value);
    let t = trimmed(c.as_slice());
    match parse_hex_exec(t.as_slice(), 0xFFFFu64) {
        Some(v) => {
            let x: i32 = if v < 0x8000 {
                v as i32
            } else {
                v as i32 - 0x10000
            };
            Ok(x as i16)
        },
        None => Err(invalid_input("Invalid Moonlight hexadecimal value")),
    }
}

/// The firmware version shown for a `:GV#` reply: its first two characters
/// with a dot between; `None` when the trimmed reply has fewer than two
/// bytes.
pub open spec fn version_text(reply: Seq<char>) -> Option<Seq<char>> {
    let t = trim(reply);
    if encode_utf8(t).len() < 2 {
        None
    } else {
        Some(seq![t[0], '.', t[1]])
    }
}

/// Whether the version of `reply` can be cut out at bytes 1 and 2: the two
/// characters are ASCII (elsewhere slicing the text would panic).
pub open spec fn version_sliceable(reply: Seq<char>) -> bool {
    let t = trim(reply);
    encode_utf8(t).len() < 2 || (t.len() >= 2 && (t[0] as u32) < 0x80 && (t[1] as u32) < 0x80)
}

/// Formats the firmware version of a `:GV#` reply.
pub fn format_firmware_version(reply: &str) -> (r: VastResult<String>)
    requires
        version_sliceable(reply@),
    ensures
        match version_text(reply@) {
            Some(v) => r matches Ok(s) && s@ == v,
            None => r matches Err(e) && e.error_type == VastErrorType::ConnectionError,
        },
{
    let c = str_chars(reply);
    let t = trimmed(c.as_slice());
    let n = byte_len(t.as_slice());
    if n < 2 {
        return Err(connection_error("Invalid Moonlight firmware version response"));
    }
    let v: Vec<char> = vec![t[0], '.', t[1]];
    Ok(string_from_chars(v.as_slice()))
}

/// Byte length of the UTF-8 encoding of `s`.
fn byte_len(s: &[char]) -> (n: usize)
    ensures
        n == encode_utf8(s@).len() || (n >= 2 && encode_utf8(s@).len() >= 2),
{
    if s.len() >= 2 {
        proof {
            lemma_encode_len(s@);
        }
        return 2;
    }
    if s.len() == 0 {
        assert(encode_utf8(s@) =~= Seq::<u8>::empty());
        return 0;
    }
    let w = crate::text::utf8_width(s[0]);
    proof {
        assert(s@.drop_first() =~= Seq::<char>::empty());
        assert(encode_utf8(s@) =~= vstd::utf8::encode_scalar(s@[0] as u32) + encode_utf8(
            Seq::<char>::empty(),
        ));
    }
    w
}

/// The encoding has at least one byte per character.
proof fn lemma_encode_len(s: Seq<char>)
    ensures
        encode_utf8(s).len() >= s.len(),
    decreases s.len(),
{
    if s.len() > 0 {
        lemma_encode_len(s.drop_first());
        vstd::utf8::char_is_scalar(s[0]);
        assert(vstd::utf8::encode_scalar(s[0] as u32).len() >= 1);
    }
}

/// Whether the version can be cut out of `reply` (see [`version_sliceable`]).
pub fn check_version_sliceable(reply: &str) -> (r: bool)
    ensures
        r == version_sliceable(reply@),
{
    let c = str_chars(reply);
    let t = trimmed(c.as_slice());
    let n = byte_len(t.as_slice());
    if n < 2 {
        return true;
    }
    proof {
        if t@.len() < 2 {
            assert(t@.len() == 1);
        }
    }
    if t.len() < 2 {
        return false;
    }
    (t[0] as u32) < 0x80 && (t[1] as u32) < 0x80
}

/// An uppercase hexadecimal digit.
pub open spec fn hex_upper(d: nat) -> char {
    if d < 10 {
        (('0' as nat) + d) as char
    } else {
        (('A' as nat) + d - 10) as char
    }
}

/// `{:04X}` of a value up to `0xFFFF`.
pub open spec fn hex4(p: nat) -> Seq<char> {
    seq![hex_upper((p / 4096) % 16), hex_upper((p / 256) % 16), hex_upper((p / 16) % 16), hex_upper(p % 16)]
}

fn hex_upper_exec(d: u32) -> (c: char)
    requires
        d < 16,
    ensures
        c == hex_upper(d as nat),
{
    if d < 10 {
        char_from_u32((48 + d) as u32)
    } else {
        char_from_u32((55 + d) as u32)
    }
}

/// The character with code `v`, for codes of ASCII digits and letters.
fn char_from_u32(v: u32) -> (c: char)
    requires
        48 <= v <= 70,
    ensures
        c as u32 == v,
{
    let digits: [char; 23] = ['0', '1', '2', '3', '4', '5', '6', '7', '8', '9', ':', ';', '<', '=', '>', '?', '@', 'A', 'B', 'C', 'D', 'E', 'F'];
    let c = digits[(v - 48) as usize];
    assert(digits@ == seq!['0', '1', '2', '3', '4', '5', '6', '7', '8', '9', ':', ';', '<', '=', '>', '?', '@', 'A', 'B', 'C', 'D', 'E', 'F']);
    c
}

/// The four digits a move command carries for a position read back, as a
/// position reply, as that position.
pub proof fn lemma_hex4_round_trip(p: nat)
    requires
        p <= 0xFFFF,
    ensures
        parse_hex(hex4(p), 0xFFFF_FFFF) == Some(p),
        trim(hex4(p)) == hex4(p),
{
    let h = hex4(p);
    let d3 = (p / 4096) % 16;
    let d2 = (p / 256) % 16;
    let d1 = (p / 16) % 16;
    let d0 = p % 16;
    assert forall|d: nat| d < 16 implies hex_digit(#[trigger] hex_upper(d)) == Some(d) by {
        if d < 10 {
            assert((('0' as nat) + d) as char as nat == '0' as nat + d);
        } else {
            assert((('A' as nat) + d - 10) as char as nat == 'A' as nat + d - 10);
        }
    }
    assert(hex_digit(h[0]) == Some(d3));
    assert(hex_digit(h[1]) == Some(d2));
    assert(hex_digit(h[2]) == Some(d1));
    assert(hex_digit(h[3]) == Some(d0));
    assert(h.drop_last().drop_last().drop_last().drop_last() =~= Seq::<char>::empty());
    assert(h.drop_last().drop_last().drop_last() =~= seq![h[0]]);
    assert(h.drop_last().drop_last() =~= seq![h[0], h[1]]);
    assert(h.drop_last() =~= seq![h[0], h[1], h[2]]);
    assert(hex_value(h) == ((d3 * 16 + d2) * 16 + d1) * 16 + d0) by {
        reveal_with_fuel(hex_value, 5);
    }
    let q = p as u32;
    assert((((q / 4096) % 16 * 16 + (q / 256) % 16) * 16 + (q / 16) % 16) * 16 + q % 16 == q) by (bit_vector)
        requires
            q <= 0xFFFF,
    ;
    assert(all_hex(h));
    lemma_trim_plain(h);
}

/// The move command for a target position: `:SN` with four uppercase
/// hexadecimal digits, or `None` above `0xFFFF`.
pub open spec fn move_command(position: nat) -> Option<Seq<char>> {
    if position > 0xFFFF {
        None
    } else {
        Some(":SN"@ + hex4(position) + "#"@)
    }
}

/// Builds the move command for a target position.
pub fn move_command_text(position: u32) -> (r: VastResult<String>)
    ensures
        match move_command(position as nat) {
            Some(t) => r matches Ok(s) && s@ == t,
            None => r matches Err(e) && e.error_type == VastErrorType::InvalidInput,
        },
{
    if position > 0xFFFF {
        return Err(invalid_input("Moonlight position exceeds controller range 0xFFFF"));
    }
    let v: Vec<char> = vec![
        hex_upper_exec((position / 4096) % 16),
        hex_upper_exec((position / 256) % 16),
        hex_upper_exec((position / 16) % 16),
        hex_upper_exec(position % 16),
    ];
    let mut s = owned(":SN");
    crate::text::push_chars(&mut s, v.as_slice());
    push_str(&mut s, "#");
    assert(v@ =~= hex4(position as nat));
    Ok(s)
}

/// Motion state of a `:GI#` reply: `0`/`00` still, `1`/`01` moving.
pub open spec fn motion_state(reply: Seq<char>) -> Option<bool> {
    let t = trim(reply);
    if t == "0"@ || t == "00"@ {
        Some(false)
    } else if t == "1"@ || t == "01"@ {
        Some(true)
    } else {
        None
    }
}

/// Reads a `:GI#` reply.
pub fn parse_motion_state(reply: &str) -> (r: VastResult<bool>)
    ensures
        match motion_state(reply@) {
            Some(b) => r == Ok::<bool, VastError>(b),
            None => r matches Err(e) && e.error_type == VastErrorType::InvalidInput,
        },
{
    let c = str_chars(reply);
    let t = trimmed(c.as_slice());
    let t = t.as_slice();
    if chars_eq_str(t, "0") || chars_eq_str(t, "00") {
        Ok(false)
    } else if chars_eq_str(t, "1") || chars_eq_str(t, "01") {
        Ok(true)
    } else {
        Err(invalid_input("Invalid Moonlight motion state"))
    }
}

/// The firmware version of a `:GV#` reply; a reply too short or not
/// sliceable at its second character is a connection error.
pub fn version_of_reply(reply: String) -> (r: VastResult<String>)
    ensures
        version_sliceable(reply@) ==> match version_text(reply@) {
            Some(v) => r matches Ok(s) && s@ == v,
            None => r matches Err(e) && e.error_type == VastErrorType::ConnectionError,
        },
        !version_sliceable(reply@) ==> (r matches Err(e) && e.error_type == VastErrorType::ConnectionError),
{
    if !check_version_sliceable(reply.as_str()) {
        return Err(connection_error("Invalid Moonlight firmware version response"));
    }
    format_firmware_version(reply.as_str())
}

/// What reading the firmware version gives for reply `t`.
pub open spec fn version_result(r: VastResult<String>, t: Seq<char>) -> bool {
    if version_sliceable(t) {
        match version_text(t) {
            Some(v) => r matches Ok(s) && s@ == v,
            None => r matches Err(e) && e.error_type == VastErrorType::ConnectionError,
        }
    } else {
        r matches Err(e) && e.error_type == VastErrorType::ConnectionError
    }
}

/// Whether a handshake read gives a firmware version.
pub open spec fn handshake_ok(received: VastResult<String>) -> bool {
    match received {
        Ok(s) => version_sliceable(s@) && version_text(s@) is Some,
        Err(_) => false,
    }
}

/// A command handed to the focuser's channel.
pub ghost enum MoonlightRequest {
    /// A command sent without reading a reply.
    Send(Seq<char>),
    /// A command whose reply is read; `true` when the `#` terminator is
    /// trimmed from the reply.
    Query(Seq<char>, bool),
}

/// The reply the focuser takes from what its channel read: with one
/// trailing `#` removed when `trim_hash`, or the channel's error unchanged.
pub open spec fn moon_reply(received: VastResult<String>, trim_hash: bool) -> Result<Seq<char>, VastError> {
    match received {
        Ok(s) => Ok(
            if trim_hash {
                trimmed_reply(s@, Some('#'))
            } else {
                s@
            },
        ),
        Err(e) => Err(e),
    }
}

/// A result's text, or its error.
pub open spec fn text_result(r: VastResult<String>) -> Result<Seq<char>, VastError> {
    match r {
        Ok(s) => Ok(s@),
        Err(e) => Err(e),
    }
}

/// `after` is `before` with one more read.
pub open spec fn one_more(before: Seq<VastResult<String>>, after: Seq<VastResult<String>>) -> bool {
    after.len() == before.len() + 1 && after.drop_last() == before
}

/// `n` firmware-version queries, one per handshake attempt.
pub open spec fn handshake_queries(n: nat) -> Seq<MoonlightRequest> {
    Seq::new(n, |_i: int| MoonlightRequest::Query(":GV#"@, false))
}

/// MoonLite-protocol focuser client over a [`CommandChannel`]. Its request
/// log records, in order, every command handed to a channel.
pub struct MoonlightFocuser<W: CommandChannel> {
    worker: Option<W>,
    temperature_unit: TemperatureUnit,
    requests: Ghost<Seq<MoonlightRequest>>,
    replies: Ghost<Seq<VastResult<String>>>,
    send_results: Ghost<Seq<VastResult<()>>>,
}

impl<W: CommandChannel> MoonlightFocuser<W> {
    /// Whether a channel is attached.
    pub closed spec fn connected(&self) -> bool {
        self.worker is Some
    }

    /// The unit temperatures are reported in.
    pub closed spec fn unit(&self) -> TemperatureUnit {
        self.temperature_unit
    }

    /// The commands handed to a channel so far.
    pub closed spec fn requests(&self) -> Seq<MoonlightRequest> {
        self.requests@
    }

    /// What the channel read for each query so far, as it returned it.
    pub closed spec fn replies(&self) -> Seq<VastResult<String>> {
        self.replies@
    }

    /// What the channel returned for each command sent without a reply.
    pub closed spec fn send_results(&self) -> Seq<VastResult<()>> {
        self.send_results@
    }

    /// A disconnected focuser reporting Celsius.
    pub fn new() -> (r: Self)
        ensures
            !r.connected(),
            r.unit() == TemperatureUnit::Celsius,
            r.requests() == Seq::<MoonlightRequest>::empty(),
            r.replies() == Seq::<VastResult<String>>::empty(),
            r.send_results() == Seq::<VastResult<()>>::empty(),
    {
        MoonlightFocuser {
            worker: None,
            temperature_unit: TemperatureUnit::Celsius,
            requests: Ghost(Seq::empty()),
            replies: Ghost(Seq::empty()),
            send_results: Ghost(Seq::empty()),
        }
    }

    /// Sends a command: refused when no channel is attached, logged
    /// otherwise.
    fn send(&mut self, command: &str) -> (r: VastResult<()>)
        ensures
            final(self).connected() == old(self).connected(),
            final(self).unit() == old(self).unit(),
            old(self).connected() ==> final(self).requests() == old(self).requests().push(
                MoonlightRequest::Send(command@),
            ),
            !old(self).connected() ==> (r matches Err(e) && e.error_type == VastErrorType::ConnectionError
                && final(self).requests() == old(self).requests()),
            final(self).replies() == old(self).replies(),
            old(self).connected() ==> final(self).send_results() == old(self).send_results().push(r),
            !old(self).connected() ==> final(self).send_results() == old(self).send_results(),
    {
        match &self.worker {
            Some(w) => {
                proof {
                    self.requests@ = self.requests@.push(MoonlightRequest::Send(command@));
                }
                let r = w.send(command);
                proof {
                    self.send_results@ = self.send_results@.push(r);
                }
                r
            },
            None => Err(connection_error("Moonlight focuser is not connected")),
        }
    }

    /// Sends a command and reads its reply, `#` trimmed when `trim_hash`.
    fn send_receive(&mut self, command: &str, trim_hash: bool) -> (r: VastResult<String>)
        ensures
            final(self).connected() == old(self).connected(),
            final(self).unit() == old(self).unit(),
            old(self).connected() ==> final(self).requests() == old(self).requests().push(
                MoonlightRequest::Query(command@, trim_hash),
            ),
            old(self).connected() ==> one_more(old(self).replies(), final(self).replies()) && text_result(r)
                == moon_reply(final(self).replies().last(), trim_hash),
            !old(self).connected() ==> (r matches Err(e) && e.error_type == VastErrorType::ConnectionError
                && final(self).requests() == old(self).requests() && final(self).replies() == old(self).replies()),
            final(self).send_results() == old(self).send_results(),
    {
        match &self.worker {
            Some(w) => {
                proof {
                    self.requests@ = self.requests@.push(MoonlightRequest::Query(command@, trim_hash));
                }
                let received = w.send_receive_with_options(
                    command,
                    ReceiveOptions { delay: Duration::from_millis(0), trim_suffix: None },
                );
                proof {
                    self.replies@ = self.replies@.push(received);
                    assert(self.replies@.drop_last() =~= old(self).replies@);
                }
                match received {
                    Ok(s) => {
                        if trim_hash {
                            Ok(trim_reply(s, Some('#')))
                        } else {
                            Ok(s)
                        }
                    },
                    Err(e) => Err(e),
                }
            },
            None => Err(connection_error("Moonlight focuser is not connected")),
        }
    }

    /// Reads the firmware version, as `major.minor`, with a `:GV#` query.
    pub fn read_version(&mut self) -> (r: VastResult<String>)
        ensures
            final(self).connected() == old(self).connected(),
            final(self).unit() == old(self).unit(),
            old(self).connected() ==> final(self).requests() == old(self).requests().push(
                MoonlightRequest::Query(":GV#"@, false),
            ),
            !old(self).connected() ==> (r matches Err(e) && e.error_type == VastErrorType::ConnectionError
                && final(self).requests() == old(self).requests()),
            r matches Ok(v) ==> exists|reply: Seq<char>| version_text(reply) == Some(v@),
            old(self).connected() ==> one_more(old(self).replies(), final(self).replies()) && match moon_reply(
                final(self).replies().last(),
                false,
            ) {
                Ok(t) => version_result(r, t),
                Err(e) => r == Err::<String, VastError>(e),
            },
            !old(self).connected() ==> final(self).replies() == old(self).replies(),
            final(self).send_results() == old(self).send_results(),
    {
        let reply = match self.send_receive(":GV#", false) {
            Ok(reply) => reply,
            Err(e) => {
                return Err(e);
            },
        };
        version_of_reply(reply)
    }

    /// Whether the focuser is moving, from a `:GI#` query.
    pub fn is_moving(&mut self) -> (r: VastResult<bool>)
        ensures
            final(self).connected() == old(self).connected(),
            final(self).unit() == old(self).unit(),
            old(self).connected() ==> final(self).requests() == old(self).requests().push(
                MoonlightRequest::Query(":GI#"@, true),
            ),
            !old(self).connected() ==> (r matches Err(e) && e.error_type == VastErrorType::ConnectionError
                && final(self).requests() == old(self).requests()),
            r matches Ok(b) ==> exists|reply: Seq<char>| motion_state(reply) == Some(b),
            old(self).connected() ==> one_more(old(self).replies(), final(self).replies()) && match moon_reply(
                final(self).replies().last(),
                true,
            ) {
                Ok(t) => match motion_state(t) {
                    Some(b) => r == Ok::<bool, VastError>(b),
                    None => r matches Err(e) && e.error_type == VastErrorType::InvalidInput,
                },
                Err(e) => r == Err::<bool, VastError>(e),
            },
            !old(self).connected() ==> final(self).replies() == old(self).replies(),
            final(self).send_results() == old(self).send_results(),
    {
        let response = match self.send_receive(":GI#", true) {
            Ok(response) => response,
            Err(e) => {
                return Err(e);
            },
        };
        parse_motion_state(response.as_str())
    }

    /// Attaches a channel after a firmware handshake: a `:GV#` query, tried
    /// up to three times with a pause of one second after each failure. The
    /// channel is attached when a reply gives a firmware version.
    pub fn connect_inner(&mut self, worker: W) -> (r: VastResult<()>)
        ensures
            r is Ok <==> final(self).connected(),
            final(self).unit() == old(self).unit(),
            exists|n: nat|
                1 <= n <= 3 && (r is Err ==> n == 3) && final(self).requests() == old(self).requests()
                    + handshake_queries(n) && #[trigger] final(self).replies().len() == old(self).replies().len()
                    + n,
            final(self).replies().len() > old(self).replies().len(),
            final(self).replies().subrange(0, old(self).replies().len() as int) == old(self).replies(),
            forall|i: int|
                old(self).replies().len() <= i < final(self).replies().len() - 1 ==> !handshake_ok(
                    #[trigger] final(self).replies()[i],
                ),
            r is Ok <==> handshake_ok(final(self).replies().last()),
            final(self).send_results() == old(self).send_results(),
    {
        let _ = self.disconnect_inner();
        let ghost before = self.requests@;
        let ghost before_r = self.replies@;
        let mut attempt: u32 = 0;
        let mut last_error = connection_error("Moonlight focuser handshake failed");
        while attempt < 3
            invariant
                attempt <= 3,
                !self.connected(),
                self.unit() == old(self).unit(),
                self.requests() == before + handshake_queries(attempt as nat),
                before == old(self).requests(),
                before_r == old(self).replies(),
                self.send_results() == old(self).send_results(),
                self.replies().len() == before_r.len() + attempt,
                self.replies().subrange(0, before_r.len() as int) == before_r,
                forall|i: int| before_r.len() <= i < self.replies().len() ==> !handshake_ok(#[trigger] self.replies()[i]),
            decreases 3 - attempt,
        {
            proof {
                self.requests@ = self.requests@.push(MoonlightRequest::Query(":GV#"@, false));
                assert(self.requests@ =~= before + handshake_queries((attempt + 1) as nat));
            }
            let received = worker.send_receive_with_options(
                ":GV#",
                ReceiveOptions { delay: Duration::from_millis(0), trim_suffix: None },
            );
            proof {
                let prev = self.replies@;
                self.replies@ = self.replies@.push(received);
                assert(self.replies@.subrange(0, before_r.len() as int) =~= prev.subrange(0, before_r.len() as int));
            }
            let outcome = match received {
                Ok(reply) => version_of_reply(reply),
                Err(e) => Err(e),
            };
            match outcome {
                Ok(_version) => {
                    self.worker = Some(worker);
                    return Ok(());
                },
                Err(err) => {
                    last_error = err;
                    worker.pause(Duration::from_secs(1));
                },
            }
            attempt = attempt + 1;
        }
        Err(last_error)
    }

    /// Current position, from a `:GP#` query.
    pub fn current_position_inner(&mut self) -> (r: VastResult<u32>)
        ensures
            final(self).connected() == old(self).connected(),
            final(self).unit() == old(self).unit(),
            old(self).connected() ==> final(self).requests() == old(self).requests().push(
                MoonlightRequest::Query(":GP#"@, true),
            ),
            !old(self).connected() ==> (r matches Err(e) && e.error_type == VastErrorType::ConnectionError
                && final(self).requests() == old(self).requests()),
            r matches Ok(p) ==> exists|reply: Seq<char>| parse_hex(trim(reply), 0xFFFF_FFFF) == Some(p as nat),
            old(self).connected() ==> one_more(old(self).replies(), final(self).replies()) && match moon_reply(
                final(self).replies().last(),
                true,
            ) {
                Ok(t) => match parse_hex(trim(t), 0xFFFF_FFFF) {
                    Some(v) => r matches Ok(x) && x == v,
                    None => r matches Err(e) && e.error_type == VastErrorType::InvalidInput,
                },
                Err(e) => r == Err::<u32, VastError>(e),
            },
            !old(self).connected() ==> final(self).replies() == old(self).replies(),
            final(self).send_results() == old(self).send_results(),
    {
        let response = match self.send_receive(":GP#", true) {
            Ok(response) => response,
            Err(e) => {
                return Err(e);
            },
        };
        parse_hex_u32(response.as_str())
    }

    /// Moves to `position`: sends the move command then `:FG#`. Positions
    /// above `0xFFFF` are refused before any I/O.
    pub fn move_to_inner(&mut self, position: u32) -> (r: VastResult<()>)
        ensures
            final(self).connected() == old(self).connected(),
            final(self).unit() == old(self).unit(),
            position > 0xFFFF ==> (r matches Err(e) && e.error_type == VastErrorType::InvalidInput
                && final(self).requests() == old(self).requests()),
            position <= 0xFFFF && !old(self).connected() ==> (r matches Err(e) && e.error_type
                == VastErrorType::ConnectionError && final(self).requests() == old(self).requests()),
            position <= 0xFFFF && old(self).connected() ==> {
                let first = old(self).requests().push(MoonlightRequest::Send(move_command(position as nat)->0));
                ||| final(self).requests() == first.push(MoonlightRequest::Send(":FG#"@))
                ||| r is Err && final(self).requests() == first
            },
            r is Ok ==> position <= 0xFFFF && final(self).requests() == old(self).requests().push(
                MoonlightRequest::Send(move_command(position as nat)->0),
            ).push(MoonlightRequest::Send(":FG#"@)),
            final(self).replies() == old(self).replies(),
            position > 0xFFFF || !old(self).connected() ==> final(self).send_results() == old(self).send_results(),
            position <= 0xFFFF && old(self).connected() ==> {
                ||| (r is Err && final(self).send_results() == old(self).send_results().push(r))
                ||| final(self).send_results() == old(self).send_results().push(Ok(())).push(r)
            },
            position <= 0xFFFF && old(self).connected() && final(self).send_results().len() == old(
                self,
            ).send_results().len() + 1 ==> final(self).requests().len() == old(self).requests().len() + 1,
    {
        let command = move_command_text(position)?;
        let first = self.send(command.as_str());
        match first {
            Ok(()) => {
                assert(first->Ok_0 == ());
                assert(first == Ok::<(), VastError>(()));
            },
            Err(e) => {
                return Err(e);
            },
        }
        self.send(":FG#")
    }

    /// Current temperature in half degrees Celsius, as the controller
    /// reports it: `:C#` starts a conversion, a `:GT#` query reads it.
    pub fn current_temperature_half_degrees(&mut self) -> (r: VastResult<i16>)
        ensures
            final(self).connected() == old(self).connected(),
            final(self).unit() == old(self).unit(),
            !old(self).connected() ==> (r matches Err(e) && e.error_type == VastErrorType::ConnectionError
                && final(self).requests() == old(self).requests()),
            old(self).connected() ==> {
                let first = old(self).requests().push(MoonlightRequest::Send(":C#"@));
                ||| final(self).requests() == first.push(MoonlightRequest::Query(":GT#"@, true))
                ||| r is Err && final(self).requests() == first
            },
            r is Ok ==> final(self).requests() == old(self).requests().push(MoonlightRequest::Send(":C#"@)).push(
                MoonlightRequest::Query(":GT#"@, true),
            ),
            r matches Ok(t) ==> exists|reply: Seq<char>| (#[trigger] parse_hex(trim(reply), 0xFFFF) matches Some(v)
                && t == (if v < 0x8000 {
                v as int
            } else {
                v - 0x10000
            })),
            old(self).connected() ==> (r is Err && final(self).replies() == old(self).replies())
                || (one_more(old(self).replies(), final(self).replies()) && match moon_reply(
                final(self).replies().last(),
                true,
            ) {
                Ok(t) => match parse_hex(trim(t), 0xFFFF) {
                    Some(v) => r matches Ok(x) && x == (if v < 0x8000 {
                        v as int
                    } else {
                        v - 0x10000
                    }),
                    None => r matches Err(e) && e.error_type == VastErrorType::InvalidInput,
                },
                Err(e) => r == Err::<i16, VastError>(e),
            }),
            !old(self).connected() ==> final(self).replies() == old(self).replies(),
            !old(self).connected() ==> final(self).send_results() == old(self).send_results(),
            old(self).connected() ==> {
                ||| (r matches Err(e) && final(self).send_results() == old(self).send_results().push(
                    Err::<(), VastError>(e),
                ) && final(self).replies() == old(self).replies())
                ||| (final(self).send_results() == old(self).send_results().push(Ok(())) && one_more(
                    old(self).replies(),
                    final(self).replies(),
                ))
            },
    {
        let first = self.send(":C#");
        match first {
            Ok(()) => {
                assert(first->Ok_0 == ());
                assert(first == Ok::<(), VastError>(()));
            },
            Err(e) => {
                return Err(e);
            },
        }
        let response = match self.send_receive(":GT#", true) {
            Ok(response) => response,
            Err(e) => {
                return Err(e);
            },
        };
        parse_hex_i16(response.as_str())
    }

    /// The focuser reports temperatures.
    pub fn temperature_supported_inner(&self) -> (r: bool)
        ensures
            r,
    {
        true
    }

    /// The unit temperatures are reported in.
    pub fn current_temperature_unit_inner(&self) -> (r: TemperatureUnit)
        ensures
            r == self.unit(),
    {
        self.temperature_unit
    }

    /// Sets the unit temperatures are reported in.
    pub fn set_temperature_unit_inner(&mut self, unit: TemperatureUnit) -> (r: VastResult<()>)
        ensures
            r is Ok,
            final(self).unit() == unit,
            final(self).connected() == old(self).connected(),
            final(self).requests() == old(self).requests(),
            final(self).replies() == old(self).replies(),
            final(self).send_results() == old(self).send_results(),
    {
        self.temperature_unit = unit;
        Ok(())
    }

    /// Detaches the channel.
    pub fn disconnect_inner(&mut self) -> (r: VastResult<()>)
        ensures
            r is Ok,
            !final(self).connected(),
            final(self).unit() == old(self).unit(),
            final(self).requests() == old(self).requests(),
            final(self).replies() == old(self).replies(),
            final(self).send_results() == old(self).send_results(),
    {
        self.worker = None;
        Ok(())
    }
}

/// A `:GI#` reply reads as moving exactly when, without surrounding
/// whitespace, it is one or two decimal digits of value 1, and as stopped
/// when it is one or two digits of value 0; any other reply is refused.
pub proof fn lemma_motion_state_digits(reply: Seq<char>)
    ensures
        ({
            let t = trim(reply);
            let small = 1 <= t.len() <= 2 && all_digits(t);
            &&& motion_state(reply) == Some(true) <==> small && digits_value(t) == 1
            &&& motion_state(reply) == Some(false) <==> small && digits_value(t) == 0
        }),
{
    reveal_strlit("0");
    reveal_strlit("00");
    reveal_strlit("1");
    reveal_strlit("01");
    let t = trim(reply);
    if 1 <= t.len() <= 2 && all_digits(t) {
        reveal_with_fuel(digits_value, 3);
        if t.len() == 1 {
            assert(t.drop_last() =~= Seq::<char>::empty());
            assert(is_digit(t[0]));
            if digits_value(t) == 0 {
                assert(t =~= "0"@);
            } else if digits_value(t) == 1 {
                assert(t =~= "1"@);
            }
        } else {
            assert(t.drop_last().drop_last() =~= Seq::<char>::empty());
            assert(is_digit(t[0]) && is_digit(t[1]));
            if digits_value(t) == 0 {
                assert(t =~= "00"@);
            } else if digits_value(t) == 1 {
                assert(t =~= "01"@);
            }
        }
    }
}

} // verus!
