//! OnStep mount command client.
//!
//! Commands and replies follow the LX200-derived OnStep serial protocol:
//! each command is `:...#`, each reply ends with `#`. The client reads the
//! raw reply from its channel, records it with the command and the pause in
//! its exchange log, and removes the terminator itself, so that what it
//! returns is stated over what the channel read.
use vstd::prelude::*;

use std::time::Duration;

use crate::base::errors::{VastError, VastErrorType, VastResult};
use crate::base::workers::{millis_duration, secs_duration, trim_reply, trimmed_reply, CommandChannel, ReceiveOptions};
use crate::text::{
    chars_eq_str, decimal, decimal2, digit_value, is_digit, owned, parse_i32, parse_i32_spec,
    push_decimal, push_decimal2, push_str, str_chars, string_from_chars, trim, trimmed,
};
use crate::types::common::CivilDateTime;

verus! {

/// One request the client has handed to its channel.
pub ghost enum OnStepRequest {
    /// A command sent without reading a reply.
    Send(Seq<char>),
    /// A command whose reply is read.
    Query(Seq<char>),
}

/// One query handed to the channel: the command, the pause before its reply
/// is read, and what the channel read (the raw reply, or its error).
pub ghost struct OnStepExchange {
    pub command: Seq<char>,
    pub delay: Duration,
    pub received: VastResult<String>,
}

/// A result's text, or its error.
pub open spec fn result_chars(r: VastResult<String>) -> Result<Seq<char>, VastError> {
    match r {
        Ok(s) => Ok(s@),
        Err(e) => Err(e),
    }
}

/// The reply the client gives for what the channel read: the text less one
/// trailing `#`, or the channel's error unchanged.
pub open spec fn reply_of(received: VastResult<String>) -> Result<Seq<char>, VastError> {
    match received {
        Ok(s) => Ok(trimmed_reply(s@, Some('#'))),
        Err(e) => Err(e),
    }
}

/// `after` is `before` with one more exchange: `command`, read after `delay`.
pub open spec fn one_exchange(
    before: Seq<OnStepExchange>,
    after: Seq<OnStepExchange>,
    command: Seq<char>,
    delay: Duration,
) -> bool {
    &&& after.len() == before.len() + 1
    &&& after.drop_last() == before
    &&& after.last().command == command
    &&& after.last().delay == delay
}

/// A setter's result for a reply: whether the reply is `1`, or the
/// channel's error unchanged.
pub open spec fn accepted_reply(r: VastResult<bool>, reply: Result<Seq<char>, VastError>) -> bool {
    match reply {
        Ok(t) => r == Ok::<bool, VastError>(t == "1"@),
        Err(e) => r == Err::<bool, VastError>(e),
    }
}

/// `after` is `before` with a `:GU#` status query and, unless that query
/// fails, a query of `command`; `r` is the status query's error, or the
/// reply to `command`.
pub open spec fn status_then_query(
    before: Seq<OnStepExchange>,
    after: Seq<OnStepExchange>,
    command: Seq<char>,
    r: VastResult<String>,
) -> bool {
    let mid = after.take(before.len() + 1int);
    &&& after.len() >= before.len() + 1
    &&& one_exchange(before, mid, ":GU#"@, millis_duration(0))
    &&& match last_reply(mid) {
        Err(e) => after == mid && r == Err::<String, VastError>(e),
        Ok(_) => one_exchange(mid, after, command, millis_duration(0)) && result_chars(r) == last_reply(after),
    }
}

/// The client's reply for the last exchange.
pub open spec fn last_reply(exchanges: Seq<OnStepExchange>) -> Result<Seq<char>, VastError> {
    reply_of(exchanges.last().received)
}

/// The reply for what the channel read: one trailing `#` removed, or the
/// channel's error unchanged.
pub fn onstep_reply(received: VastResult<String>) -> (r: VastResult<String>)
    ensures
        result_chars(r) == reply_of(received),
{
    match received {
        Ok(s) => Ok(trim_reply(s, Some('#'))),
        Err(e) => Err(e),
    }
}

/// Mount state cached from the last `:GU#` status reply.
#[derive(Clone, Debug)]
pub struct OnStepStatus {
    pub is_slewing: bool,
    pub is_tracking: bool,
    pub is_parked: bool,
    pub parking_status: String,
    pub mount_type: String,
    pub home_wait: bool,
    pub is_home: bool,
    pub pier_side: String,
    pub pec_recorded: bool,
    pub pec: String,
    pub pps: bool,
    pub guide_status: String,
    pub pulse_guide_rate: String,
    pub guide_rate: String,
    pub general_error: i32,
}

/// What an [`OnStepStatus`] holds.
pub ghost struct OnStepStatusView {
    pub is_slewing: bool,
    pub is_tracking: bool,
    pub is_parked: bool,
    pub parking_status: Seq<char>,
    pub mount_type: Seq<char>,
    pub home_wait: bool,
    pub is_home: bool,
    pub pier_side: Seq<char>,
    pub pec_recorded: bool,
    pub pec: Seq<char>,
    pub pps: bool,
    pub guide_status: Seq<char>,
    pub pulse_guide_rate: Seq<char>,
    pub guide_rate: Seq<char>,
    pub general_error: int,
}

impl View for OnStepStatus {
    type V = OnStepStatusView;

    open spec fn view(&self) -> OnStepStatusView {
        OnStepStatusView {
            is_slewing: self.is_slewing,
            is_tracking: self.is_tracking,
            is_parked: self.is_parked,
            parking_status: self.parking_status@,
            mount_type: self.mount_type@,
            home_wait: self.home_wait,
            is_home: self.is_home,
            pier_side: self.pier_side@,
            pec_recorded: self.pec_recorded,
            pec: self.pec@,
            pps: self.pps,
            guide_status: self.guide_status@,
            pulse_guide_rate: self.pulse_guide_rate@,
            guide_rate: self.guide_rate@,
            general_error: self.general_error as int,
        }
    }
}

/// `s` holds `c`.
pub open spec fn holds_char(s: Seq<char>, c: char) -> bool {
    exists|i: int| 0 <= i < s.len() && s[i] == c
}

/// Parked flag and parking text after reply `s`: `P` parked, then `p`
/// unparked, `I` parking in progress, `F` parking failed, a later flag
/// overriding an earlier one; unchanged when none is present.
pub open spec fn gu_parking(parked: bool, status: Seq<char>, s: Seq<char>) -> (bool, Seq<char>) {
    if holds_char(s, 'F') {
        (false, "Parking failed"@)
    } else if holds_char(s, 'I') {
        (false, "Parking in progress"@)
    } else if holds_char(s, 'p') {
        (false, "Unparked"@)
    } else if holds_char(s, 'P') {
        (true, "Parked"@)
    } else {
        (parked, status)
    }
}

/// PEC state after reply `s`: `/` ignore, `,` ready to play, `~` playing,
/// `;` ready to record, `^` recording, a later flag overriding an earlier
/// one; unchanged when none is present.
pub open spec fn gu_pec(pec: Seq<char>, s: Seq<char>) -> Seq<char> {
    if holds_char(s, '^') {
        "Recording"@
    } else if holds_char(s, ';') {
        "Ready to Record"@
    } else if holds_char(s, '~') {
        "Playing"@
    } else if holds_char(s, ',') {
        "Ready to Play"@
    } else if holds_char(s, '/') {
        "Ignore"@
    } else {
        pec
    }
}

/// Mount type after reply `s`: `E` equatorial, `K` fork, `k` fork
/// alternate, `A` alt-az, a later flag overriding an earlier one; unchanged
/// when none is present.
pub open spec fn gu_mount_type(mount_type: Seq<char>, s: Seq<char>) -> Seq<char> {
    if holds_char(s, 'A') {
        "AltAz"@
    } else if holds_char(s, 'k') {
        "Fork Alternate"@
    } else if holds_char(s, 'K') {
        "Fork"@
    } else if holds_char(s, 'E') {
        "Equatorial"@
    } else {
        mount_type
    }
}

/// Pier side after reply `s`: `o` none, `T` east, `W` west, a later flag
/// overriding an earlier one; unchanged when none is present.
pub open spec fn gu_pier_side(side: Seq<char>, s: Seq<char>) -> Seq<char> {
    if holds_char(s, 'W') {
        "West"@
    } else if holds_char(s, 'T') {
        "East"@
    } else if holds_char(s, 'o') {
        "None"@
    } else {
        side
    }
}

/// Guide status after reply `s`: `G` a guide pulse is active.
pub open spec fn gu_guide_status(s: Seq<char>) -> Seq<char> {
    if holds_char(s, 'G') {
        "Guide pulse active"@
    } else {
        Seq::empty()
    }
}

/// The status after a `:GU#` reply `s`: `n` not tracking, `N` not slewing,
/// the parking flags of [`gu_parking`], `H` at home, `w` waiting at home,
/// the guide status of [`gu_guide_status`], `S` PPS synced, `R` PEC
/// recorded, the PEC state of [`gu_pec`], the mount type of
/// [`gu_mount_type`], the pier side of [`gu_pier_side`]; the last three
/// characters of a reply longer than three are the pulse-guide rate, the
/// guide rate and the error digit (0 when not a digit).
pub open spec fn gu_update(st: OnStepStatusView, s: Seq<char>) -> OnStepStatusView {
    let n = s.len();
    let parking = gu_parking(st.is_parked, st.parking_status, s);
    OnStepStatusView {
        is_tracking: !holds_char(s, 'n'),
        is_slewing: !holds_char(s, 'N'),
        is_parked: parking.0,
        parking_status: parking.1,
        is_home: holds_char(s, 'H'),
        home_wait: holds_char(s, 'w'),
        guide_status: gu_guide_status(s),
        pps: holds_char(s, 'S'),
        pec_recorded: holds_char(s, 'R'),
        pec: gu_pec(st.pec, s),
        mount_type: gu_mount_type(st.mount_type, s),
        pier_side: gu_pier_side(st.pier_side, s),
        pulse_guide_rate: if n > 3 {
            seq![s[n - 3]]
        } else {
            st.pulse_guide_rate
        },
        guide_rate: if n > 3 {
            seq![s[n - 2]]
        } else {
            st.guide_rate
        },
        general_error: if n > 3 {
            if is_digit(s[n - 1]) {
                digit_value(s[n - 1]) as int
            } else {
                0
            }
        } else {
            st.general_error
        },
    }
}

/// Whether `s` holds `c`.
fn contains_char(s: &[char], c: char) -> (r: bool)
    ensures
        r == holds_char(s@, c),
{
    let mut i: usize = 0;
    while i < s.len()
        invariant
            i <= s.len(),
            forall|j: int| 0 <= j < i ==> s@[j] != c,
        decreases s.len() - i,
    {
        if s[i] == c {
            return true;
        }
        i = i + 1;
    }
    false
}

fn parking_after(s: &[char], parked: bool, status: String) -> (r: (bool, String))
    ensures
        (r.0, r.1@) == gu_parking(parked, status@, s@),
{
    if contains_char(s, 'F') {
        (false, owned("Parking failed"))
    } else if contains_char(s, 'I') {
        (false, owned("Parking in progress"))
    } else if contains_char(s, 'p') {
        (false, owned("Unparked"))
    } else if contains_char(s, 'P') {
        (true, owned("Parked"))
    } else {
        (parked, status)
    }
}

fn pec_after(s: &[char], pec: String) -> (r: String)
    ensures
        r@ == gu_pec(pec@, s@),
{
    if contains_char(s, '^') {
        owned("Recording")
    } else if contains_char(s, ';') {
        owned("Ready to Record")
    } else if contains_char(s, '~') {
        owned("Playing")
    } else if contains_char(s, ',') {
        owned("Ready to Play")
    } else if contains_char(s, '/') {
        owned("Ignore")
    } else {
        pec
    }
}

fn mount_type_after(s: &[char], mount_type: String) -> (r: String)
    ensures
        r@ == gu_mount_type(mount_type@, s@),
{
    if contains_char(s, 'A') {
        owned("AltAz")
    } else if contains_char(s, 'k') {
        owned("Fork Alternate")
    } else if contains_char(s, 'K') {
        owned("Fork")
    } else if contains_char(s, 'E') {
        owned("Equatorial")
    } else {
        mount_type
    }
}

fn pier_side_after(s: &[char], side: String) -> (r: String)
    ensures
        r@ == gu_pier_side(side@, s@),
{
    if contains_char(s, 'W') {
        owned("West")
    } else if contains_char(s, 'T') {
        owned("East")
    } else if contains_char(s, 'o') {
        owned("None")
    } else {
        side
    }
}

fn guide_status_after(s: &[char]) -> (r: String)
    ensures
        r@ == gu_guide_status(s@),
{
    if contains_char(s, 'G') {
        owned("Guide pulse active")
    } else {
        String::new()
    }
}

/// A one-character string.
fn char_string(c: char) -> (r: String)
    ensures
        r@ == seq![c],
{
    let v: Vec<char> = vec![c];
    string_from_chars(v.as_slice())
}

/// The status of a new client.
pub open spec fn initial_status() -> OnStepStatusView {
    OnStepStatusView {
        is_slewing: false,
        is_tracking: false,
        is_parked: false,
        parking_status: Seq::empty(),
        mount_type: Seq::empty(),
        home_wait: false,
        is_home: false,
        pier_side: Seq::empty(),
        pec_recorded: false,
        pec: Seq::empty(),
        pps: false,
        guide_status: Seq::empty(),
        pulse_guide_rate: Seq::empty(),
        guide_rate: Seq::empty(),
        general_error: 0,
    }
}

impl OnStepStatus {
    /// The state before any status reply.
    pub fn new() -> (r: Self)
        ensures
            r@ == initial_status(),
    {
        OnStepStatus {
            is_slewing: false,
            is_tracking: false,
            is_parked: false,
            parking_status: String::new(),
            mount_type: String::new(),
            home_wait: false,
            is_home: false,
            pier_side: String::new(),
            pec_recorded: false,
            pec: String::new(),
            pps: false,
            guide_status: String::new(),
            pulse_guide_rate: String::new(),
            guide_rate: String::new(),
            general_error: 0,
        }
    }

    /// Applies a `:GU#` status reply.
    #[verifier::spinoff_prover]
    #[verifier::rlimit(50)]
    pub fn apply_gu_reply(&mut self, reply: &str)
        ensures
            final(self)@ == gu_update(old(self)@, reply@),
    {
        let s = str_chars(reply);
        let s = s.as_slice();
        self.is_tracking = !contains_char(s, 'n');
        self.is_slewing = !contains_char(s, 'N');
        let mut status = String::new();
        std::mem::swap(&mut status, &mut self.parking_status);
        let (parked, status) = parking_after(s, self.is_parked, status);
        self.is_parked = parked;
        self.parking_status = status;
        self.is_home = contains_char(s, 'H');
        self.home_wait = contains_char(s, 'w');
        self.guide_status = guide_status_after(s);
        self.pps = contains_char(s, 'S');
        self.pec_recorded = contains_char(s, 'R');
        let mut pec = String::new();
        std::mem::swap(&mut pec, &mut self.pec);
        self.pec = pec_after(s, pec);
        let mut mount_type = String::new();
        std::mem::swap(&mut mount_type, &mut self.mount_type);
        self.mount_type = mount_type_after(s, mount_type);
        let mut side = String::new();
        std::mem::swap(&mut side, &mut self.pier_side);
        self.pier_side = pier_side_after(s, side);
        let n = s.len();
        if n > 3 {
            self.pulse_guide_rate = char_string(s[n - 3]);
            self.guide_rate = char_string(s[n - 2]);
            let last = s[n - 1];
            self.general_error = if '0' <= last && last <= '9' {
                (last as u32 - '0' as u32) as i32
            } else {
                0
            };
        }
        assert(self@ =~= gu_update(old(self)@, reply@));
    }
}

/// The `(code, message)` pair a slew reply maps to.
pub open spec fn slew_message(r: Seq<char>) -> (Seq<char>, Seq<char>) {
    if r == "0"@ {
        ("0"@, "Goto is possible"@)
    } else if r == "1"@ {
        ("1"@, "below the horizon limit"@)
    } else if r == "2"@ {
        ("2"@, "above overhead limit"@)
    } else if r == "3"@ {
        ("3"@, "controller in standby"@)
    } else if r == "4"@ {
        ("4"@, "mount is parked"@)
    } else if r == "5"@ {
        ("5"@, "Goto in progress"@)
    } else if r == "6"@ {
        ("6"@, "outside limits (MaxDec, MinDec, UnderPoleLimit, MeridianLimit)"@)
    } else if r == "7"@ {
        ("7"@, "hardware fault"@)
    } else if r == "8"@ {
        ("8"@, "already in motion"@)
    } else {
        (r, "unspecified error"@)
    }
}

/// Maps a slew reply to its code and message.
pub fn slew_result(r: String) -> (p: (String, String))
    ensures
        (p.0@, p.1@) == slew_message(r@),
{
    let c = str_chars(r.as_str());
    let c = c.as_slice();
    if chars_eq_str(c, "0") {
        (owned("0"), owned("Goto is possible"))
    } else if chars_eq_str(c, "1") {
        (owned("1"), owned("below the horizon limit"))
    } else if chars_eq_str(c, "2") {
        (owned("2"), owned("above overhead limit"))
    } else if chars_eq_str(c, "3") {
        (owned("3"), owned("controller in standby"))
    } else if chars_eq_str(c, "4") {
        (owned("4"), owned("mount is parked"))
    } else if chars_eq_str(c, "5") {
        (owned("5"), owned("Goto in progress"))
    } else if chars_eq_str(c, "6") {
        (owned("6"), owned("outside limits (MaxDec, MinDec, UnderPoleLimit, MeridianLimit)"))
    } else if chars_eq_str(c, "7") {
        (owned("7"), owned("hardware fault"))
    } else if chars_eq_str(c, "8") {
        (owned("8"), owned("already in motion"))
    } else {
        (r, owned("unspecified error"))
    }
}

/// An invalid-input error.
pub fn invalid_input(message: &str) -> (e: VastError)
    ensures
        e.error_type == VastErrorType::InvalidInput,
{
    VastError::new(VastErrorType::InvalidInput, owned(message))
}

/// The minutes a minutes field of a UTC offset stands for: only `00`, `30`
/// and `45` are read.
pub open spec fn offset_minutes_field(m: Seq<char>) -> Option<int> {
    if m == "00"@ {
        Some(0)
    } else if m == "30"@ {
        Some(30)
    } else if m == "45"@ {
        Some(45)
    } else {
        None
    }
}

/// The signed minutes an OnStep UTC offset text `[+|-]H[:MM]` stands for
/// (in OnStep's own sign), or `None` when it is malformed or its size does
/// not fit in `i32`.
pub open spec fn parse_utc_offset(value: Seq<char>) -> Option<int> {
    let t = trim(value);
    let neg = t.len() > 0 && t[0] == '-';
    let pos = t.len() > 0 && t[0] == '+';
    let u = if neg || pos {
        t.drop_first()
    } else {
        t
    };
    let (hours_text, minutes) = match crate::text::first_index_of(u, ':') {
        Some(i) => (u.subrange(0, i), offset_minutes_field(u.subrange(i + 1, u.len() as int))),
        None => (u, Some(0int)),
    };
    match (minutes, parse_i32_spec(hours_text)) {
        (Some(mm), Some(h)) => {
            let a = (if h < 0 {
                -h
            } else {
                h as int
            }) * 60 + mm;
            if a <= i32::MAX {
                Some(if neg {
                    -a
                } else {
                    a
                })
            } else {
                None
            }
        },
        _ => None,
    }
}

/// OnStep's text for a local offset of `m` minutes from UTC: OnStep counts
/// the other way, as `+H`, or `+HH:MM` for half and three-quarter hours;
/// `None` for other fractions of an hour.
pub open spec fn format_utc_offset(m: int) -> Option<Seq<char>> {
    let o = -m;
    let sign = if o < 0 {
        '-'
    } else {
        '+'
    };
    let a = if o < 0 {
        -o
    } else {
        o
    };
    let h = a / 60;
    let mm = a % 60;
    if mm != 0 && mm != 30 && mm != 45 {
        None
    } else if mm == 0 {
        Some(seq![sign] + decimal(h as nat))
    } else {
        Some(seq![sign] + decimal2(h as nat) + seq![':'] + decimal2(mm as nat))
    }
}

/// Reads an OnStep UTC offset reply.
pub fn parse_onstep_utc_offset_minutes(value: &str) -> (r: VastResult<i32>)
    ensures
        match parse_utc_offset(value@) {
            Some(v) => r matches Ok(x) && x == v,
            None => r matches Err(e) && e.error_type == VastErrorType::InvalidInput,
        },
{
    let chars = str_chars(value);
    let t = trimmed(chars.as_slice());
    let neg = t.len() > 0 && t[0] == '-';
    let pos = t.len() > 0 && t[0] == '+';
    let u: Vec<char> = if neg || pos {
        crate::text::slice_range(t.as_slice(), 1, t.len())
    } else {
        t.clone()
    };
    assert(neg || pos ==> u@ =~= t@.drop_first());
    assert(!(neg || pos) ==> u@ =~= t@);
    let colon = crate::text::find_char(u.as_slice(), ':', 0);
    let (hours_text, minutes): (Vec<char>, i32) = match colon {
        Some(i) => {
            proof {
                crate::imageformats::fits_reader::lemma_first_index(u@, ':', i as int);
            }
            let mtext = crate::text::slice_range(u.as_slice(), i + 1, u.len());
            let m = mtext.as_slice();
            let minutes: i32 = if chars_eq_str(m, "00") {
                0
            } else if chars_eq_str(m, "30") {
                30
            } else if chars_eq_str(m, "45") {
                45
            } else {
                return Err(invalid_input("Invalid UTC offset minutes"));
            };
            (crate::text::slice_range(u.as_slice(), 0, i), minutes)
        },
        None => {
            assert(crate::text::first_index_of(u@, ':') is None);
            (u, 0)
        },
    };
    let hours = match parse_i32(hours_text.as_slice()) {
        Some(h) => h,
        None => {
            return Err(invalid_input("Invalid UTC offset"));
        },
    };
    let a: i64 = (if hours < 0 {
        -(hours as i64)
    } else {
        hours as i64
    }) * 60 + minutes as i64;
    if a > 2147483647 {
        return Err(invalid_input("UTC offset out of range"));
    }
    Ok(if neg {
        -(a as i32)
    } else {
        a as i32
    })
}

/// OnStep's text for a local offset of `utc_offset_minutes` from UTC.
pub fn format_onstep_utc_offset_minutes(utc_offset_minutes: i32) -> (r: VastResult<String>)
    requires
        utc_offset_minutes != i32::MIN,
    ensures
        match format_utc_offset(utc_offset_minutes as int) {
            Some(t) => r matches Ok(s) && s@ == t,
            None => r matches Err(e) && e.error_type == VastErrorType::InvalidInput,
        },
{
    let o = -utc_offset_minutes;
    let sign = if o < 0 {
        '-'
    } else {
        '+'
    };
    let a: u32 = if o < 0 {
        (-(o as i64)) as u32
    } else {
        o as u32
    };
    let hours = a / 60;
    let minutes = a % 60;
    if minutes != 0 && minutes != 30 && minutes != 45 {
        return Err(
            invalid_input("OnStep supports only whole-hour, half-hour, or 45-minute UTC offsets"),
        );
    }
    let mut out = char_string(sign);
    if minutes == 0 {
        push_decimal(&mut out, hours as u64);
    } else {
        push_decimal2(&mut out, hours as u64);
        out.append(":");
        proof {
            reveal_strlit(":");
        }
        push_decimal2(&mut out, minutes as u64);
    }
    Ok(out)
}

/// Reading back the UTC offset text written for a local offset of `m`
/// minutes gives OnStep's count, `-m`; the mount client negates it again, so
/// a read after a write gives `m`.
#[verifier::spinoff_prover]
#[verifier::rlimit(60)]
pub proof fn lemma_utc_offset_round_trip(m: int)
    requires
        i32::MIN < m <= i32::MAX,
        format_utc_offset(m) is Some,
    ensures
        parse_utc_offset(format_utc_offset(m)->0) == Some(-m),
{
    let o = -m;
    let sign = if o < 0 {
        '-'
    } else {
        '+'
    };
    let a = if o < 0 {
        -o
    } else {
        o
    };
    let h = a / 60;
    let mm = a % 60;
    let t = format_utc_offset(m)->0;
    crate::text::lemma_decimal_digits(h as nat);
    crate::text::lemma_parse_decimal2(h as nat);
    crate::text::lemma_parse_decimal(h as nat);
    let d = if mm == 0 {
        decimal(h as nat)
    } else {
        decimal2(h as nat) + seq![':'] + decimal2(mm as nat)
    };
    assert(t =~= seq![sign] + d);
    assert(is_digit(d[d.len() - 1])) by {
        if mm != 0 {
            crate::text::lemma_parse_decimal2(mm as nat);
            assert(d[d.len() - 1] == decimal2(mm as nat)[decimal2(mm as nat).len() - 1]);
        }
    }
    crate::text::lemma_trim_plain(t);
    assert(t.drop_first() =~= d);
    let hd = if mm == 0 {
        decimal(h as nat)
    } else {
        decimal2(h as nat)
    };
    assert(parse_i32_spec(hd) == Some(h as i32)) by {
        assert(hd[0] != '-') by {
            assert(is_digit(hd[0]));
        }
        assert(hd[0] != '+') by {
            assert(is_digit(hd[0]));
        }
    }
    if mm == 0 {
        assert forall|i: int| 0 <= i < d.len() implies #[trigger] d[i] != ':' by {
            assert(is_digit(d[i]));
        }
        assert(crate::text::first_index_of(d, ':') is None);
    } else {
        let k = decimal2(h as nat).len() as int;
        assert(d[k] == ':');
        assert forall|i: int| 0 <= i < k implies #[trigger] d[i] != ':' by {
            assert(d[i] == decimal2(h as nat)[i]);
            assert(is_digit(decimal2(h as nat)[i]));
        }
        crate::imageformats::fits_reader::lemma_first_index(d, ':', k);
        assert(d.subrange(0, k) =~= decimal2(h as nat));
        assert(d.subrange(k + 1, d.len() as int) =~= decimal2(mm as nat));
        reveal_strlit("30");
        reveal_strlit("45");
        reveal_strlit("00");
        if mm == 30 {
            crate::text::lemma_decimal_len_two(30);
            assert(decimal2(30) =~= "30"@);
        } else {
            crate::text::lemma_decimal_len_two(45);
            assert(decimal2(45) =~= "45"@);
        }
    }
}

/// `prefix`, then `body`, then the `#` terminator.
fn command_text(prefix: &str, body: &str) -> (r: String)
    ensures
        r@ == prefix@ + body@ + "#"@,
{
    let mut c = owned(prefix);
    push_str(&mut c, body);
    push_str(&mut c, "#");
    c
}

/// `{:02}` of the year modulo 100, as `%y` prints it.
pub open spec fn year2(y: int) -> Seq<char> {
    decimal2((y % 100) as nat)
}

/// `%m/%d/%y` of a date.
pub open spec fn mdy_text(d: CivilDateTime) -> Seq<char> {
    decimal2(d.month as nat) + "/"@ + decimal2(d.day as nat) + "/"@ + year2(d.year as int)
}

/// `%H:%M:%S` of a time of day.
pub open spec fn hms_text(d: CivilDateTime) -> Seq<char> {
    decimal2(d.hour as nat) + ":"@ + decimal2(d.minute as nat) + ":"@ + decimal2(d.second as nat)
}

/// Formats a date as `%m/%d/%y`.
pub fn format_mdy(d: CivilDateTime) -> (r: String)
    ensures
        r@ == mdy_text(d),
{
    let y = d.year % 100;
    let y = if y < 0 {
        y + 100
    } else {
        y
    };
    assert(y == d.year as int % 100);
    let mut out = String::new();
    push_decimal2(&mut out, d.month as u64);
    push_str(&mut out, "/");
    push_decimal2(&mut out, d.day as u64);
    push_str(&mut out, "/");
    push_decimal2(&mut out, y as u64);
    assert(out@ =~= mdy_text(d));
    out
}

/// Formats a time of day as `%H:%M:%S`.
pub fn format_hms(d: CivilDateTime) -> (r: String)
    ensures
        r@ == hms_text(d),
{
    let mut out = String::new();
    push_decimal2(&mut out, d.hour as u64);
    push_str(&mut out, ":");
    push_decimal2(&mut out, d.minute as u64);
    push_str(&mut out, ":");
    push_decimal2(&mut out, d.second as u64);
    assert(out@ =~= hms_text(d));
    out
}

/// The OnStep code of a manual move speed preset (`G` for unknown names).
pub open spec fn speed_code(speed: Seq<char>) -> Seq<char> {
    if speed == "0.25x"@ {
        "0"@
    } else if speed == "0.5x"@ {
        "1"@
    } else if speed == "1x"@ {
        "G"@
    } else if speed == "2x"@ {
        "3"@
    } else if speed == "4x"@ {
        "4"@
    } else if speed == "8x"@ {
        "C"@
    } else if speed == "20x"@ {
        "M"@
    } else if speed == "48x"@ {
        "F"@
    } else if speed == "half"@ {
        "S"@
    } else if speed == "max"@ {
        "9"@
    } else {
        "G"@
    }
}

/// A named manual speed preset.
pub open spec fn is_speed_preset(t: Seq<char>) -> bool {
    ||| t == "0.25x"@
    ||| t == "0.5x"@
    ||| t == "1x"@
    ||| t == "2x"@
    ||| t == "4x"@
    ||| t == "8x"@
    ||| t == "20x"@
    ||| t == "48x"@
    ||| t == "half"@
    ||| t == "max"@
}

/// The OnStep code of a manual move speed preset.
pub fn speed_code_of(speed: &str) -> (r: &'static str)
    ensures
        r@ == speed_code(speed@),
{
    let c = str_chars(speed);
    let c = c.as_slice();
    if chars_eq_str(c, "0.25x") {
        "0"
    } else if chars_eq_str(c, "0.5x") {
        "1"
    } else if chars_eq_str(c, "1x") {
        "G"
    } else if chars_eq_str(c, "2x") {
        "3"
    } else if chars_eq_str(c, "4x") {
        "4"
    } else if chars_eq_str(c, "8x") {
        "C"
    } else if chars_eq_str(c, "20x") {
        "M"
    } else if chars_eq_str(c, "48x") {
        "F"
    } else if chars_eq_str(c, "half") {
        "S"
    } else if chars_eq_str(c, "max") {
        "9"
    } else {
        "G"
    }
}

/// Synchronous OnStep command client over a [`CommandChannel`].
///
/// The client caches the mount state read from `:GU#` replies and offers
/// helpers for the common OnStep commands. Its request log records, in
/// order, every command handed to the channel.
pub struct OnStepClient<W: CommandChannel> {
    worker: W,
    show_commands: bool,
    status: OnStepStatus,
    requests: Ghost<Seq<OnStepRequest>>,
    exchanges: Ghost<Seq<OnStepExchange>>,
    send_results: Ghost<Seq<VastResult<()>>>,
}

impl<W: CommandChannel> OnStepClient<W> {
    /// The commands handed to the channel so far.
    pub closed spec fn requests(&self) -> Seq<OnStepRequest> {
        self.requests@
    }

    /// The queries handed to the channel so far, with what it read.
    pub closed spec fn exchanges(&self) -> Seq<OnStepExchange> {
        self.exchanges@
    }

    /// What the channel returned for each command sent without a reply.
    pub closed spec fn send_results(&self) -> Seq<VastResult<()>> {
        self.send_results@
    }

    /// The cached mount state.
    pub closed spec fn status_view(&self) -> OnStepStatusView {
        self.status@
    }

    /// Creates a client over a command channel. `show_commands` asks for
    /// outgoing commands to be logged.
    pub fn new(worker: W, show_commands: bool) -> (r: Self)
        ensures
            r.requests() == Seq::<OnStepRequest>::empty(),
            r.status_view() == initial_status(),
            r.exchanges() == Seq::<OnStepExchange>::empty(),
            r.send_results() == Seq::<VastResult<()>>::empty(),
    {
        OnStepClient {
            worker,
            show_commands,
            status: OnStepStatus::new(),
            requests: Ghost(Seq::empty()),
            exchanges: Ghost(Seq::empty()),
            send_results: Ghost(Seq::empty()),
        }
    }

    fn send_request(&mut self, command: &str) -> (r: VastResult<()>)
        ensures
            final(self).requests() == old(self).requests().push(OnStepRequest::Send(command@)),
            final(self).status_view() == old(self).status_view(),
            final(self).exchanges() == old(self).exchanges(),
            final(self).send_results() == old(self).send_results().push(r),
    {
        proof {
            self.requests@ = self.requests@.push(OnStepRequest::Send(command@));
        }
        let r = self.worker.send(command);
        proof {
            self.send_results@ = self.send_results@.push(r);
        }
        r
    }

    /// Sends one command, waits `delay`, and returns the reply without its
    /// `#` terminator.
    pub fn send_command_result_with_delay(&mut self, command: &str, delay: Duration) -> (r: VastResult<String>)
        ensures
            final(self).requests() == old(self).requests().push(OnStepRequest::Query(command@)),
            final(self).status_view() == old(self).status_view(),
            one_exchange(old(self).exchanges(), final(self).exchanges(), command@, delay),
            result_chars(r) == last_reply(final(self).exchanges()),
            final(self).send_results() == old(self).send_results(),
    {
        proof {
            self.requests@ = self.requests@.push(OnStepRequest::Query(command@));
        }
        let options = ReceiveOptions { delay, trim_suffix: None };
        let received = self.worker.send_receive_with_options(command, options);
        proof {
            self.exchanges@ = self.exchanges@.push(
                OnStepExchange { command: command@, delay: options.delay, received },
            );
            assert(self.exchanges@.drop_last() =~= old(self).exchanges@);
        }
        onstep_reply(received)
    }

    /// Sends one command and returns the reply without its `#` terminator.
    pub fn send_command_result(&mut self, command: &str) -> (r: VastResult<String>)
        ensures
            final(self).requests() == old(self).requests().push(OnStepRequest::Query(command@)),
            final(self).status_view() == old(self).status_view(),
            one_exchange(old(self).exchanges(), final(self).exchanges(), command@, millis_duration(0)),
            result_chars(r) == last_reply(final(self).exchanges()),
            final(self).send_results() == old(self).send_results(),
    {
        self.send_command_result_with_delay(command, Duration::from_millis(0))
    }

    /// Sends one command and returns the reply, or an empty string when
    /// there is none.
    pub fn send_command(&mut self, command: &str) -> (r: String)
        ensures
            final(self).requests() == old(self).requests().push(OnStepRequest::Query(command@)),
            final(self).status_view() == old(self).status_view(),
            one_exchange(old(self).exchanges(), final(self).exchanges(), command@, millis_duration(0)),
            r@ == match last_reply(final(self).exchanges()) {
                Ok(t) => t,
                Err(_) => Seq::<char>::empty(),
            },
    {
        match self.send_command_result(command) {
            Ok(response) => response,
            Err(_) => String::new(),
        }
    }

    /// Refreshes the cached mount state from a `:GU#` reply; a channel
    /// error is returned unchanged and leaves the state as it was.
    pub fn update_status(&mut self) -> (r: VastResult<()>)
        ensures
            final(self).requests() == old(self).requests().push(OnStepRequest::Query(":GU#"@)),
            one_exchange(old(self).exchanges(), final(self).exchanges(), ":GU#"@, millis_duration(0)),
            match last_reply(final(self).exchanges()) {
                Ok(t) => r is Ok && final(self).status_view() == gu_update(old(self).status_view(), t),
                Err(e) => r == Err::<(), VastError>(e) && final(self).status_view() == old(self).status_view(),
            },
            r is Ok ==> exists|s: Seq<char>| final(self).status_view() == gu_update(old(self).status_view(), s),
            r is Err ==> final(self).status_view() == old(self).status_view(),
            final(self).send_results() == old(self).send_results(),
    {
        let s = self.send_command_result(":GU#")?;
        self.status.apply_gu_reply(s.as_str());
        Ok(())
    }

    /// Refreshes the cached mount state, for a status dump.
    pub fn dump_status(&mut self) -> (r: VastResult<()>)
        ensures
            final(self).requests() == old(self).requests().push(OnStepRequest::Query(":GU#"@)),
            one_exchange(old(self).exchanges(), final(self).exchanges(), ":GU#"@, millis_duration(0)),
            match last_reply(final(self).exchanges()) {
                Ok(t) => r is Ok && final(self).status_view() == gu_update(old(self).status_view(), t),
                Err(e) => r == Err::<(), VastError>(e) && final(self).status_view() == old(self).status_view(),
            },
            r is Ok ==> exists|s: Seq<char>| final(self).status_view() == gu_update(old(self).status_view(), s),
            r is Err ==> final(self).status_view() == old(self).status_view(),
    {
        self.update_status()
    }

    /// The whole cached mount state.
    pub fn status(&self) -> (r: &OnStepStatus)
        ensures
            r@ == self.status_view(),
    {
        &self.status
    }

    /// Cached tracking state.
    pub fn is_tracking(&self) -> (r: bool)
        ensures
            r == self.status_view().is_tracking,
    {
        self.status.is_tracking
    }

    /// Cached slewing state.
    pub fn is_slewing(&self) -> (r: bool)
        ensures
            r == self.status_view().is_slewing,
    {
        self.status.is_slewing
    }

    /// Cached parked state.
    pub fn is_parked(&self) -> (r: bool)
        ensures
            r == self.status_view().is_parked,
    {
        self.status.is_parked
    }

    /// Cached pier side: `East` or `West`, else `None`.
    pub fn pier_side(&self) -> (r: Option<&'static str>)
        ensures
            r matches Some(p) ==> p@ == self.status_view().pier_side && (p@ == "East"@ || p@ == "West"@),
            r is None ==> self.status_view().pier_side != "East"@ && self.status_view().pier_side != "West"@,
    {
        let p = str_chars(self.status.pier_side.as_str());
        if chars_eq_str(p.as_slice(), "East") {
            Some("East")
        } else if chars_eq_str(p.as_slice(), "West") {
            Some("West")
        } else {
            None
        }
    }
}

impl<W: CommandChannel> OnStepClient<W> {
    /// Starts alignment with `num_stars` stars.
    pub fn align(&mut self, num_stars: u8) -> (r: VastResult<()>)
        ensures
            final(self).requests() == old(self).requests().push(
                OnStepRequest::Send(":A"@ + decimal(num_stars as nat) + "#"@),
            ),
            final(self).status_view() == old(self).status_view(),
            final(self).send_results() == old(self).send_results().push(r),
    {
        let mut command = owned(":A");
        push_decimal(&mut command, num_stars as u64);
        push_str(&mut command, "#");
        self.send_request(command.as_str())
    }

    /// Current alignment status.
    pub fn get_align_status(&mut self) -> (r: VastResult<String>)
        ensures
            final(self).requests() == old(self).requests().push(OnStepRequest::Query(":A?#"@)),
            final(self).status_view() == old(self).status_view(),
            one_exchange(old(self).exchanges(), final(self).exchanges(), ":A?#"@, millis_duration(0)),
            result_chars(r) == last_reply(final(self).exchanges()),
    {
        self.send_command_result(":A?#")
    }

    /// Enables tracking.
    pub fn tracking_on(&mut self) -> (r: VastResult<String>)
        ensures
            final(self).requests() == old(self).requests().push(OnStepRequest::Query(":Te#"@)),
            final(self).status_view() == old(self).status_view(),
            one_exchange(old(self).exchanges(), final(self).exchanges(), ":Te#"@, millis_duration(0)),
            result_chars(r) == last_reply(final(self).exchanges()),
    {
        self.send_command_result(":Te#")
    }

    /// Disables tracking.
    pub fn tracking_off(&mut self) -> (r: VastResult<String>)
        ensures
            final(self).requests() == old(self).requests().push(OnStepRequest::Query(":Td#"@)),
            final(self).status_view() == old(self).status_view(),
            one_exchange(old(self).exchanges(), final(self).exchanges(), ":Td#"@, millis_duration(0)),
            result_chars(r) == last_reply(final(self).exchanges()),
    {
        self.send_command_result(":Td#")
    }

    /// Selects the sidereal tracking rate.
    pub fn tracking_sidereal(&mut self) -> (r: VastResult<()>)
        ensures
            final(self).requests() == old(self).requests().push(OnStepRequest::Send(":TQ#"@)),
            final(self).status_view() == old(self).status_view(),
            final(self).send_results() == old(self).send_results().push(r),
    {
        self.send_request(":TQ#")
    }

    /// Selects the solar tracking rate.
    pub fn tracking_solar(&mut self) -> (r: VastResult<()>)
        ensures
            final(self).requests() == old(self).requests().push(OnStepRequest::Send(":TS#"@)),
            final(self).status_view() == old(self).status_view(),
            final(self).send_results() == old(self).send_results().push(r),
    {
        self.send_request(":TS#")
    }

    /// Selects the lunar tracking rate.
    pub fn tracking_lunar(&mut self) -> (r: VastResult<()>)
        ensures
            final(self).requests() == old(self).requests().push(OnStepRequest::Send(":TL#"@)),
            final(self).status_view() == old(self).status_view(),
            final(self).send_results() == old(self).send_results().push(r),
    {
        self.send_request(":TL#")
    }

    /// Sets the target azimuth.
    pub fn set_target_azm(&mut self, azm: &str) -> (r: VastResult<String>)
        ensures
            final(self).requests() == old(self).requests().push(OnStepRequest::Query(":Sz"@ + azm@ + "#"@)),
            final(self).status_view() == old(self).status_view(),
            one_exchange(old(self).exchanges(), final(self).exchanges(), ":Sz"@ + azm@ + "#"@, millis_duration(0)),
            result_chars(r) == last_reply(final(self).exchanges()),
    {
        let command = command_text(":Sz", azm);
        self.send_command_result(command.as_str())
    }

    /// Sets the target altitude.
    pub fn set_target_alt(&mut self, alt: &str) -> (r: VastResult<String>)
        ensures
            final(self).requests() == old(self).requests().push(OnStepRequest::Query(":Sa"@ + alt@ + "#"@)),
            final(self).status_view() == old(self).status_view(),
            one_exchange(old(self).exchanges(), final(self).exchanges(), ":Sa"@ + alt@ + "#"@, millis_duration(0)),
            result_chars(r) == last_reply(final(self).exchanges()),
    {
        let command = command_text(":Sa", alt);
        self.send_command_result(command.as_str())
    }

    /// Sets the target right ascension.
    pub fn set_target_ra(&mut self, ra: &str) -> (r: VastResult<String>)
        ensures
            final(self).requests() == old(self).requests().push(OnStepRequest::Query(":Sr"@ + ra@ + "#"@)),
            final(self).status_view() == old(self).status_view(),
            one_exchange(old(self).exchanges(), final(self).exchanges(), ":Sr"@ + ra@ + "#"@, millis_duration(0)),
            result_chars(r) == last_reply(final(self).exchanges()),
    {
        let command = command_text(":Sr", ra);
        self.send_command_result(command.as_str())
    }

    /// Sets the target declination.
    pub fn set_target_dec(&mut self, dec: &str) -> (r: VastResult<String>)
        ensures
            final(self).requests() == old(self).requests().push(OnStepRequest::Query(":Sd"@ + dec@ + "#"@)),
            final(self).status_view() == old(self).status_view(),
            one_exchange(old(self).exchanges(), final(self).exchanges(), ":Sd"@ + dec@ + "#"@, millis_duration(0)),
            result_chars(r) == last_reply(final(self).exchanges()),
    {
        let command = command_text(":Sd", dec);
        self.send_command_result(command.as_str())
    }

    /// Starts an equatorial slew and maps its reply code to a message.
    pub fn slew_equ(&mut self) -> (r: VastResult<(String, String)>)
        ensures
            final(self).requests() == old(self).requests().push(OnStepRequest::Query(":MS#"@)),
            final(self).status_view() == old(self).status_view(),
            one_exchange(old(self).exchanges(), final(self).exchanges(), ":MS#"@, secs_duration(3)),
            match last_reply(final(self).exchanges()) {
                Ok(t) => r matches Ok(p) && (p.0@, p.1@) == slew_message(t),
                Err(e) => r == Err::<(String, String), VastError>(e),
            },
            r matches Ok(p) ==> exists|reply: Seq<char>| (p.0@, p.1@) == slew_message(reply),
    {
        let r = self.send_command_result_with_delay(":MS#", Duration::from_secs(3))?;
        Ok(slew_result(r))
    }

    /// Starts a horizontal slew and maps its reply code to a message.
    pub fn slew_hor(&mut self) -> (r: VastResult<(String, String)>)
        ensures
            final(self).requests() == old(self).requests().push(OnStepRequest::Query(":MA#"@)),
            final(self).status_view() == old(self).status_view(),
            one_exchange(old(self).exchanges(), final(self).exchanges(), ":MA#"@, secs_duration(3)),
            match last_reply(final(self).exchanges()) {
                Ok(t) => r matches Ok(p) && (p.0@, p.1@) == slew_message(t),
                Err(e) => r == Err::<(String, String), VastError>(e),
            },
            r matches Ok(p) ==> exists|reply: Seq<char>| (p.0@, p.1@) == slew_message(reply),
    {
        let r = self.send_command_result_with_delay(":MA#", Duration::from_secs(3))?;
        Ok(slew_result(r))
    }

    /// Starts a polar slew and maps its reply code to a message.
    pub fn slew_polar(&mut self) -> (r: VastResult<(String, String)>)
        ensures
            final(self).requests() == old(self).requests().push(OnStepRequest::Query(":MP#"@)),
            final(self).status_view() == old(self).status_view(),
            one_exchange(old(self).exchanges(), final(self).exchanges(), ":MP#"@, secs_duration(3)),
            match last_reply(final(self).exchanges()) {
                Ok(t) => r matches Ok(p) && (p.0@, p.1@) == slew_message(t),
                Err(e) => r == Err::<(String, String), VastError>(e),
            },
            r matches Ok(p) ==> exists|reply: Seq<char>| (p.0@, p.1@) == slew_message(reply),
    {
        let r = self.send_command_result_with_delay(":MP#", Duration::from_secs(3))?;
        Ok(slew_result(r))
    }

    /// Refreshes the status, then syncs when the mount is tracking.
    pub fn sync(&mut self) -> (r: VastResult<()>)
        ensures
            ({
                let after = old(self).requests().push(OnStepRequest::Query(":GU#"@));
                ||| final(self).requests() == after
                ||| final(self).requests() == after.push(OnStepRequest::Send(":CM#"@))
                    && final(self).status_view().is_tracking
            }),
            r is Ok && final(self).requests().len() == old(self).requests().len() + 1
                ==> !final(self).status_view().is_tracking,
            one_exchange(old(self).exchanges(), final(self).exchanges(), ":GU#"@, millis_duration(0)),
            match last_reply(final(self).exchanges()) {
                Err(e) => r == Err::<(), VastError>(e) && final(self).requests().len() == old(self).requests().len()
                    + 1,
                Ok(t) => final(self).status_view() == gu_update(old(self).status_view(), t),
            },
            final(self).requests().len() == old(self).requests().len() + 2 ==> final(self).send_results()
                == old(self).send_results().push(r),
            final(self).requests().len() == old(self).requests().len() + 1 ==> final(self).send_results()
                == old(self).send_results(),
    {
        match self.update_status() {
            Ok(()) => {},
            Err(e) => {
                return Err(e);
            },
        }
        if self.status.is_tracking {
            return self.send_request(":CM#");
        }
        Ok(())
    }

    /// Sets the backlash of an axis (`1` RA, `2` DEC, default `1`).
    pub fn set_backlash(&mut self, axis: Option<u8>, value: Option<u8>) -> (r: VastResult<String>)
        ensures
            ({
                let a = match axis {
                    Some(a) => a,
                    None => 1u8,
                };
                let v = match value {
                    Some(v) => v,
                    None => 0u8,
                };
                if a == 1 {
                    final(self).requests() == old(self).requests().push(
                        OnStepRequest::Query(":$BR"@ + decimal(v as nat) + "#"@),
                    )
                } else if a == 2 {
                    final(self).requests() == old(self).requests().push(
                        OnStepRequest::Query(":$BD"@ + decimal(v as nat) + "#"@),
                    )
                } else {
                    r matches Err(e) && e.error_type == VastErrorType::InvalidInput && final(self).requests()
                        == old(self).requests()
                }
            }),
            final(self).status_view() == old(self).status_view(),
            final(self).requests() != old(self).requests() ==> one_exchange(
                old(self).exchanges(),
                final(self).exchanges(),
                final(self).requests().last()->Query_0,
                millis_duration(0),
            ) && result_chars(r) == last_reply(final(self).exchanges()),
            final(self).requests() == old(self).requests() ==> final(self).exchanges() == old(self).exchanges(),
    {
        let a = match axis {
            Some(a) => a,
            None => 1u8,
        };
        let v = match value {
            Some(v) => v,
            None => 0u8,
        };
        let ax = if a == 1 {
            "R"
        } else if a == 2 {
            "D"
        } else {
            return Err(invalid_input("Invalid axis for OnStep backlash command"));
        };
        let mut command = owned(":$B");
        push_str(&mut command, ax);
        push_decimal(&mut command, v as u64);
        push_str(&mut command, "#");
        proof {
            reveal_strlit(":$B");
            reveal_strlit(":$BR");
            reveal_strlit(":$BD");
            reveal_strlit("R");
            reveal_strlit("D");
        }
        assert(a == 1 ==> command@ =~= ":$BR"@ + decimal(v as nat) + "#"@);
        assert(a == 2 ==> command@ =~= ":$BD"@ + decimal(v as nat) + "#"@);
        self.send_command_result(command.as_str())
    }

    /// Reads the backlash of an axis (`1` RA, `2` DEC, default `1`).
    pub fn get_backlash(&mut self, axis: Option<u8>) -> (r: VastResult<String>)
        ensures
            ({
                let a = match axis {
                    Some(a) => a,
                    None => 1u8,
                };
                if a == 1 {
                    final(self).requests() == old(self).requests().push(OnStepRequest::Query(":%BR#"@))
                } else if a == 2 {
                    final(self).requests() == old(self).requests().push(OnStepRequest::Query(":%BD#"@))
                } else {
                    r matches Err(e) && e.error_type == VastErrorType::InvalidInput && final(self).requests()
                        == old(self).requests()
                }
            }),
            final(self).status_view() == old(self).status_view(),
            final(self).requests() != old(self).requests() ==> one_exchange(
                old(self).exchanges(),
                final(self).exchanges(),
                final(self).requests().last()->Query_0,
                millis_duration(0),
            ) && result_chars(r) == last_reply(final(self).exchanges()),
            final(self).requests() == old(self).requests() ==> final(self).exchanges() == old(self).exchanges(),
    {
        let a = match axis {
            Some(a) => a,
            None => 1u8,
        };
        if a == 1 {
            self.send_command_result(":%BR#")
        } else if a == 2 {
            self.send_command_result(":%BD#")
        } else {
            Err(invalid_input("Invalid axis for OnStep query"))
        }
    }

    /// Equatorial debug string.
    pub fn get_debug_equ(&mut self) -> (r: VastResult<String>)
        ensures
            final(self).requests() == old(self).requests().push(OnStepRequest::Query(":GXFE#"@)),
            final(self).status_view() == old(self).status_view(),
            one_exchange(old(self).exchanges(), final(self).exchanges(), ":GXFE#"@, millis_duration(0)),
            result_chars(r) == last_reply(final(self).exchanges()),
    {
        self.send_command_result(":GXFE#")
    }

    /// Motor position of an axis (`1` or `2`, default `1`).
    pub fn get_ax_motor_pos(&mut self, axis: Option<u8>) -> (r: VastResult<String>)
        ensures
            ({
                let a = match axis {
                    Some(a) => a,
                    None => 1u8,
                };
                if a == 1 {
                    final(self).requests() == old(self).requests().push(OnStepRequest::Query(":GXF8#"@))
                } else if a == 2 {
                    final(self).requests() == old(self).requests().push(OnStepRequest::Query(":GXF9#"@))
                } else {
                    r matches Err(e) && e.error_type == VastErrorType::InvalidInput && final(self).requests()
                        == old(self).requests()
                }
            }),
            final(self).status_view() == old(self).status_view(),
            final(self).requests() != old(self).requests() ==> one_exchange(
                old(self).exchanges(),
                final(self).exchanges(),
                final(self).requests().last()->Query_0,
                millis_duration(0),
            ) && result_chars(r) == last_reply(final(self).exchanges()),
            final(self).requests() == old(self).requests() ==> final(self).exchanges() == old(self).exchanges(),
    {
        let a = match axis {
            Some(a) => a,
            None => 1u8,
        };
        if a == 1 {
            self.send_command_result(":GXF8#")
        } else if a == 2 {
            self.send_command_result(":GXF9#")
        } else {
            Err(invalid_input("Invalid axis for OnStep query"))
        }
    }

    /// Speed diagnostic of an axis (`1` or `2`, default `1`).
    pub fn get_spd(&mut self, axis: Option<u8>) -> (r: VastResult<String>)
        ensures
            ({
                let a = match axis {
                    Some(a) => a,
                    None => 1u8,
                };
                if a == 1 {
                    final(self).requests() == old(self).requests().push(OnStepRequest::Query(":GXE4#"@))
                } else if a == 2 {
                    final(self).requests() == old(self).requests().push(OnStepRequest::Query(":GXE5#"@))
                } else {
                    r matches Err(e) && e.error_type == VastErrorType::InvalidInput && final(self).requests()
                        == old(self).requests()
                }
            }),
            final(self).status_view() == old(self).status_view(),
            final(self).requests() != old(self).requests() ==> one_exchange(
                old(self).exchanges(),
                final(self).exchanges(),
                final(self).requests().last()->Query_0,
                millis_duration(0),
            ) && result_chars(r) == last_reply(final(self).exchanges()),
            final(self).requests() == old(self).requests() ==> final(self).exchanges() == old(self).exchanges(),
    {
        let a = match axis {
            Some(a) => a,
            None => 1u8,
        };
        if a == 1 {
            self.send_command_result(":GXE4#")
        } else if a == 2 {
            self.send_command_result(":GXE5#")
        } else {
            Err(invalid_input("Invalid axis for OnStep query"))
        }
    }

    /// Correction diagnostic value.
    pub fn get_cor_do(&mut self) -> (r: VastResult<String>)
        ensures
            final(self).requests() == old(self).requests().push(OnStepRequest::Query(":GX04#"@)),
            final(self).status_view() == old(self).status_view(),
            one_exchange(old(self).exchanges(), final(self).exchanges(), ":GX04#"@, millis_duration(0)),
            result_chars(r) == last_reply(final(self).exchanges()),
    {
        self.send_command_result(":GX04#")
    }

    /// Sets the local offset from UTC in minutes; `true` when the mount
    /// accepts it. Offsets that are not whole, half or three-quarter hours
    /// are refused before any I/O.
    pub fn set_utc_offset_minutes(&mut self, utc_offset_minutes: i32) -> (r: VastResult<bool>)
        requires
            utc_offset_minutes != i32::MIN,
        ensures
            match format_utc_offset(utc_offset_minutes as int) {
                Some(t) => final(self).requests() == old(self).requests().push(
                    OnStepRequest::Query(":SG"@ + t + "#"@),
                ) && one_exchange(old(self).exchanges(), final(self).exchanges(), ":SG"@ + t + "#"@, secs_duration(1))
                    && accepted_reply(r, last_reply(final(self).exchanges())),
                None => r matches Err(e) && e.error_type == VastErrorType::InvalidInput
                    && final(self).requests() == old(self).requests() && final(self).exchanges() == old(self).exchanges(),
            },
            final(self).status_view() == old(self).status_view(),
    {
        let offset = format_onstep_utc_offset_minutes(utc_offset_minutes)?;
        let command = command_text(":SG", offset.as_str());
        let s = self.send_command_result_with_delay(command.as_str(), Duration::from_secs(1))?;
        let c = str_chars(s.as_str());
        Ok(chars_eq_str(c.as_slice(), "1"))
    }

    /// Reads the local offset from UTC in minutes.
    pub fn get_utc_offset_minutes(&mut self) -> (r: VastResult<i32>)
        ensures
            final(self).requests() == old(self).requests().push(OnStepRequest::Query(":GG#"@)),
            final(self).status_view() == old(self).status_view(),
            r matches Ok(m) ==> exists|reply: Seq<char>| parse_utc_offset(reply) == Some(-(m as int)),
            one_exchange(old(self).exchanges(), final(self).exchanges(), ":GG#"@, millis_duration(0)),
            match last_reply(final(self).exchanges()) {
                Ok(t) => match parse_utc_offset(t) {
                    Some(v) => r matches Ok(m) && m == -v,
                    None => r matches Err(e) && e.error_type == VastErrorType::InvalidInput,
                },
                Err(e) => r == Err::<i32, VastError>(e),
            },
    {
        let rx = self.send_command_result(":GG#")?;
        let minutes = parse_onstep_utc_offset_minutes(rx.as_str())?;
        Ok(-minutes)
    }

    /// Sets the mount's local date; `true` when the mount accepts it.
    pub fn set_local_date(&mut self, date: CivilDateTime) -> (r: VastResult<bool>)
        ensures
            final(self).requests() == old(self).requests().push(
                OnStepRequest::Query(":SC"@ + mdy_text(date) + "#"@),
            ),
            final(self).status_view() == old(self).status_view(),
            one_exchange(old(self).exchanges(), final(self).exchanges(), ":SC"@ + mdy_text(date) + "#"@, secs_duration(4)),
            accepted_reply(r, last_reply(final(self).exchanges())),
    {
        let text = format_mdy(date);
        let command = command_text(":SC", text.as_str());
        let s = self.send_command_result_with_delay(command.as_str(), Duration::from_secs(4))?;
        let c = str_chars(s.as_str());
        Ok(chars_eq_str(c.as_slice(), "1"))
    }

    /// Current mount date.
    pub fn get_date(&mut self) -> (r: VastResult<String>)
        ensures
            final(self).requests() == old(self).requests().push(OnStepRequest::Query(":GC#"@)),
            final(self).status_view() == old(self).status_view(),
            one_exchange(old(self).exchanges(), final(self).exchanges(), ":GC#"@, millis_duration(0)),
            result_chars(r) == last_reply(final(self).exchanges()),
    {
        self.send_command_result(":GC#")
    }

    /// Sets the mount's local time; `true` when the mount accepts it.
    pub fn set_local_time(&mut self, time: CivilDateTime) -> (r: VastResult<bool>)
        ensures
            final(self).requests() == old(self).requests().push(
                OnStepRequest::Query(":SL"@ + hms_text(time) + "#"@),
            ),
            final(self).status_view() == old(self).status_view(),
            one_exchange(old(self).exchanges(), final(self).exchanges(), ":SL"@ + hms_text(time) + "#"@, secs_duration(3)),
            accepted_reply(r, last_reply(final(self).exchanges())),
    {
        let text = format_hms(time);
        let command = command_text(":SL", text.as_str());
        let s = self.send_command_result_with_delay(command.as_str(), Duration::from_secs(3))?;
        let c = str_chars(s.as_str());
        Ok(chars_eq_str(c.as_slice(), "1"))
    }

    /// Current mount time, in high precision when asked.
    pub fn get_time(&mut self, high_precision: Option<bool>) -> (r: VastResult<String>)
        ensures
            final(self).requests() == old(self).requests().push(
                OnStepRequest::Query(
                    if high_precision == Some(true) {
                        ":GLa#"@
                    } else {
                        ":GL#"@
                    },
                ),
            ),
            final(self).status_view() == old(self).status_view(),
            one_exchange(old(self).exchanges(), final(self).exchanges(), if high_precision == Some(true) { ":GLa#"@ } else { ":GL#"@ }, millis_duration(0)),
            result_chars(r) == last_reply(final(self).exchanges()),
    {
        let hp = match high_precision {
            Some(b) => b,
            None => false,
        };
        if hp {
            self.send_command_result(":GLa#")
        } else {
            self.send_command_result(":GL#")
        }
    }

    /// Current sidereal time, in high precision when asked.
    pub fn get_sidereal_time(&mut self, high_precision: Option<bool>) -> (r: VastResult<String>)
        ensures
            final(self).requests() == old(self).requests().push(
                OnStepRequest::Query(
                    if high_precision == Some(true) {
                        ":GSa#"@
                    } else {
                        ":GS#"@
                    },
                ),
            ),
            final(self).status_view() == old(self).status_view(),
            one_exchange(old(self).exchanges(), final(self).exchanges(), if high_precision == Some(true) { ":GSa#"@ } else { ":GS#"@ }, millis_duration(0)),
            result_chars(r) == last_reply(final(self).exchanges()),
    {
        let hp = match high_precision {
            Some(b) => b,
            None => false,
        };
        if hp {
            self.send_command_result(":GSa#")
        } else {
            self.send_command_result(":GS#")
        }
    }

    /// Current horizon limit.
    pub fn get_horizon_limit(&mut self) -> (r: VastResult<String>)
        ensures
            final(self).requests() == old(self).requests().push(OnStepRequest::Query(":GhsDD#"@)),
            final(self).status_view() == old(self).status_view(),
            one_exchange(old(self).exchanges(), final(self).exchanges(), ":GhsDD#"@, millis_duration(0)),
            result_chars(r) == last_reply(final(self).exchanges()),
    {
        self.send_command_result(":GhsDD#")
    }

    /// Current overhead limit.
    pub fn get_overhead_limit(&mut self) -> (r: VastResult<String>)
        ensures
            final(self).requests() == old(self).requests().push(OnStepRequest::Query(":SoDD#"@)),
            final(self).status_view() == old(self).status_view(),
            one_exchange(old(self).exchanges(), final(self).exchanges(), ":SoDD#"@, millis_duration(0)),
            result_chars(r) == last_reply(final(self).exchanges()),
    {
        self.send_command_result(":SoDD#")
    }

    /// OnStep version string.
    pub fn get_version(&mut self) -> (r: VastResult<String>)
        ensures
            final(self).requests() == old(self).requests().push(OnStepRequest::Query(":GVN#"@)),
            final(self).status_view() == old(self).status_view(),
            one_exchange(old(self).exchanges(), final(self).exchanges(), ":GVN#"@, millis_duration(0)),
            result_chars(r) == last_reply(final(self).exchanges()),
    {
        self.send_command_result(":GVN#")
    }

    /// Right ascension, in high precision when asked; refreshes the status
    /// first.
    pub fn get_ra(&mut self, high_precision: Option<bool>) -> (r: VastResult<String>)
        ensures
            ({
                let after = old(self).requests().push(OnStepRequest::Query(":GU#"@));
                let q = if high_precision == Some(true) {
                    ":GRa#"@
                } else {
                    ":GR#"@
                };
                ||| final(self).requests() == after.push(OnStepRequest::Query(q))
                ||| r is Err && final(self).requests() == after
            }),
            status_then_query(
                old(self).exchanges(),
                final(self).exchanges(),
                if high_precision == Some(true) {
                    ":GRa#"@
                } else {
                    ":GR#"@
                },
                r,
            ),
    {
        let hp = match high_precision {
            Some(b) => b,
            None => false,
        };
        let ghost before = self.exchanges@;
        match self.update_status() {
            Ok(()) => {},
            Err(e) => {
                assert(self.exchanges@.take(before.len() + 1int) =~= self.exchanges@);
                return Err(e);
            },
        }
        let ghost mid = self.exchanges@;
        assert(mid.take(before.len() + 1int) =~= mid);
        if hp {
            self.send_command_result(":GRa#")
        } else {
            self.send_command_result(":GR#")
        }
    }

    /// Declination; refreshes the status first.
    pub fn get_dec(&mut self) -> (r: VastResult<String>)
        ensures
            final(self).requests() == old(self).requests().push(OnStepRequest::Query(":GU#"@)).push(
                OnStepRequest::Query(":GD#"@),
            ) || (r is Err && final(self).requests() == old(self).requests().push(
                OnStepRequest::Query(":GU#"@),
            )),
            status_then_query(old(self).exchanges(), final(self).exchanges(), ":GD#"@, r),
    {
        let ghost before = self.exchanges@;
        match self.update_status() {
            Ok(()) => {},
            Err(e) => {
                assert(self.exchanges@.take(before.len() + 1int) =~= self.exchanges@);
                return Err(e);
            },
        }
        let ghost mid = self.exchanges@;
        assert(mid.take(before.len() + 1int) =~= mid);
        self.send_command_result(":GD#")
    }

    /// Altitude; refreshes the status first.
    pub fn get_alt(&mut self) -> (r: VastResult<String>)
        ensures
            final(self).requests() == old(self).requests().push(OnStepRequest::Query(":GU#"@)).push(
                OnStepRequest::Query(":GA#"@),
            ) || (r is Err && final(self).requests() == old(self).requests().push(
                OnStepRequest::Query(":GU#"@),
            )),
            status_then_query(old(self).exchanges(), final(self).exchanges(), ":GA#"@, r),
    {
        let ghost before = self.exchanges@;
        match self.update_status() {
            Ok(()) => {},
            Err(e) => {
                assert(self.exchanges@.take(before.len() + 1int) =~= self.exchanges@);
                return Err(e);
            },
        }
        let ghost mid = self.exchanges@;
        assert(mid.take(before.len() + 1int) =~= mid);
        self.send_command_result(":GA#")
    }

    /// Azimuth; refreshes the status first.
    pub fn get_azm(&mut self) -> (r: VastResult<String>)
        ensures
            final(self).requests() == old(self).requests().push(OnStepRequest::Query(":GU#"@)).push(
                OnStepRequest::Query(":GZ#"@),
            ) || (r is Err && final(self).requests() == old(self).requests().push(
                OnStepRequest::Query(":GU#"@),
            )),
            status_then_query(old(self).exchanges(), final(self).exchanges(), ":GZ#"@, r),
    {
        let ghost before = self.exchanges@;
        match self.update_status() {
            Ok(()) => {},
            Err(e) => {
                assert(self.exchanges@.take(before.len() + 1int) =~= self.exchanges@);
                return Err(e);
            },
        }
        let ghost mid = self.exchanges@;
        assert(mid.take(before.len() + 1int) =~= mid);
        self.send_command_result(":GZ#")
    }

    /// Returns to home; refreshes the status first.
    pub fn return_home(&mut self) -> (r: VastResult<String>)
        ensures
            final(self).requests() == old(self).requests().push(OnStepRequest::Query(":GU#"@)).push(
                OnStepRequest::Query(":hC#"@),
            ) || (r is Err && final(self).requests() == old(self).requests().push(
                OnStepRequest::Query(":GU#"@),
            )),
            status_then_query(old(self).exchanges(), final(self).exchanges(), ":hC#"@, r),
    {
        let ghost before = self.exchanges@;
        match self.update_status() {
            Ok(()) => {},
            Err(e) => {
                assert(self.exchanges@.take(before.len() + 1int) =~= self.exchanges@);
                return Err(e);
            },
        }
        let ghost mid = self.exchanges@;
        assert(mid.take(before.len() + 1int) =~= mid);
        self.send_command_result(":hC#")
    }

    /// Resets home; refreshes the status first.
    pub fn reset_home(&mut self) -> (r: VastResult<String>)
        ensures
            final(self).requests() == old(self).requests().push(OnStepRequest::Query(":GU#"@)).push(
                OnStepRequest::Query(":hF#"@),
            ) || (r is Err && final(self).requests() == old(self).requests().push(
                OnStepRequest::Query(":GU#"@),
            )),
            status_then_query(old(self).exchanges(), final(self).exchanges(), ":hF#"@, r),
    {
        let ghost before = self.exchanges@;
        match self.update_status() {
            Ok(()) => {},
            Err(e) => {
                assert(self.exchanges@.take(before.len() + 1int) =~= self.exchanges@);
                return Err(e);
            },
        }
        let ghost mid = self.exchanges@;
        assert(mid.take(before.len() + 1int) =~= mid);
        self.send_command_result(":hF#")
    }

    /// Sets the manual move speed preset (default `20x`).
    pub fn set_speed(&mut self, speed: Option<String>) -> (r: VastResult<()>)
        ensures
            final(self).requests() == old(self).requests().push(
                OnStepRequest::Send(
                    ":R"@ + speed_code(
                        match speed {
                            Some(s) => s@,
                            None => "20x"@,
                        },
                    ) + "#"@,
                ),
            ),
            final(self).status_view() == old(self).status_view(),
            final(self).send_results() == old(self).send_results().push(r),
    {
        let code = match &speed {
            Some(s) => speed_code_of(s.as_str()),
            None => speed_code_of("20x"),
        };
        let command = command_text(":R", code);
        self.send_request(command.as_str())
    }

    /// Stops all motion.
    pub fn stop(&mut self) -> (r: VastResult<()>)
        ensures
            final(self).requests() == old(self).requests().push(OnStepRequest::Send(":Q#"@)),
            final(self).status_view() == old(self).status_view(),
            final(self).send_results() == old(self).send_results().push(r),
    {
        self.send_request(":Q#")
    }

    /// Starts manual motion towards `n`, `s`, `w` or `e`; other directions
    /// are refused before any I/O.
    pub fn move_direction(&mut self, direction: char) -> (r: VastResult<()>)
        ensures
            if direction == 'n' || direction == 's' || direction == 'w' || direction == 'e' {
                final(self).requests() == old(self).requests().push(
                    OnStepRequest::Send(":M"@ + seq![direction] + "#"@),
                )
            } else {
                r matches Err(e) && e.error_type == VastErrorType::InvalidInput && final(self).requests()
                    == old(self).requests()
            },
            final(self).status_view() == old(self).status_view(),
            if direction == 'n' || direction == 's' || direction == 'w' || direction == 'e' {
                final(self).send_results() == old(self).send_results().push(r)
            } else {
                final(self).send_results() == old(self).send_results()
            },
    {
        if direction == 'n' || direction == 's' || direction == 'w' || direction == 'e' {
            let d = char_string(direction);
            let command = command_text(":M", d.as_str());
            self.send_request(command.as_str())
        } else {
            Err(invalid_input("Invalid OnStep move direction"))
        }
    }

    /// Sets the preferred pier side `W`, `E` or `B`; other sides are refused
    /// before any I/O.
    pub fn set_preferred_pierside(&mut self, side: char) -> (r: VastResult<()>)
        ensures
            if side == 'W' || side == 'E' || side == 'B' {
                final(self).requests() == old(self).requests().push(
                    OnStepRequest::Send(":SX96,"@ + seq![side] + "#"@),
                )
            } else {
                r matches Err(e) && e.error_type == VastErrorType::InvalidInput && final(self).requests()
                    == old(self).requests()
            },
            final(self).status_view() == old(self).status_view(),
            if side == 'W' || side == 'E' || side == 'B' {
                final(self).send_results() == old(self).send_results().push(r)
            } else {
                final(self).send_results() == old(self).send_results()
            },
    {
        if side != 'W' && side != 'E' && side != 'B' {
            return Err(invalid_input("Invalid OnStep preferred pier side"));
        }
        let d = char_string(side);
        let command = command_text(":SX96,", d.as_str());
        self.send_request(command.as_str())
    }
}

/// Some character of `s` is `c`.
pub open spec fn reply_has(s: Seq<char>, c: char) -> bool {
    exists|i: int| 0 <= i < s.len() && s[i] == c
}

/// What a `:GU#` reply's flags set, by flag: the mount type is "AltAz" for
/// `A`, else "Fork Alternate" for `k`, else "Fork" for `K`, else
/// "Equatorial" for `E`; the pier side is "West" for `W`, else "East" for
/// `T`, else "None" for `o`; the parking state is "Parking failed" for `F`,
/// else "Parking in progress" for `I`, else "Unparked" for `p` (each of
/// these not parked), else "Parked" and parked for `P`; the PEC state is
/// "Recording" for `^`, else "Ready to Record" for `;`, else "Playing" for
/// `~`, else "Ready to Play" for `,`, else "Ignore" for `/`; `n` stops
/// tracking, `N` slewing; `H`, `w`, `S` and `R` set at home, waiting at home,
/// PPS and PEC recorded, and `G` an active guide pulse. A field whose flags
/// are all absent keeps its value, but for the flags of the last sentence,
/// which are then cleared.
pub proof fn lemma_gu_flags(st: OnStepStatusView, s: Seq<char>)
    ensures
        ({
            let r = gu_update(st, s);
            &&& reply_has(s, 'A') ==> r.mount_type == "AltAz"@
            &&& !reply_has(s, 'A') && reply_has(s, 'k') ==> r.mount_type == "Fork Alternate"@
            &&& !reply_has(s, 'A') && !reply_has(s, 'k') && reply_has(s, 'K') ==> r.mount_type == "Fork"@
            &&& !reply_has(s, 'A') && !reply_has(s, 'k') && !reply_has(s, 'K') && reply_has(s, 'E') ==> r.mount_type == "Equatorial"@
            &&& !reply_has(s, 'A') && !reply_has(s, 'k') && !reply_has(s, 'K') && !reply_has(s, 'E') ==> r.mount_type == st.mount_type
            &&& reply_has(s, 'W') ==> r.pier_side == "West"@
            &&& !reply_has(s, 'W') && reply_has(s, 'T') ==> r.pier_side == "East"@
            &&& !reply_has(s, 'W') && !reply_has(s, 'T') && reply_has(s, 'o') ==> r.pier_side == "None"@
            &&& !reply_has(s, 'W') && !reply_has(s, 'T') && !reply_has(s, 'o') ==> r.pier_side == st.pier_side
            &&& reply_has(s, 'F') ==> !r.is_parked && r.parking_status == "Parking failed"@
            &&& !reply_has(s, 'F') && reply_has(s, 'I') ==> !r.is_parked && r.parking_status == "Parking in progress"@
            &&& !reply_has(s, 'F') && !reply_has(s, 'I') && reply_has(s, 'p') ==> !r.is_parked && r.parking_status == "Unparked"@
            &&& !reply_has(s, 'F') && !reply_has(s, 'I') && !reply_has(s, 'p') && reply_has(s, 'P') ==> r.is_parked && r.parking_status == "Parked"@
            &&& !reply_has(s, 'F') && !reply_has(s, 'I') && !reply_has(s, 'p') && !reply_has(s, 'P') ==> r.is_parked == st.is_parked
                && r.parking_status == st.parking_status
            &&& reply_has(s, '^') ==> r.pec == "Recording"@
            &&& !reply_has(s, '^') && reply_has(s, ';') ==> r.pec == "Ready to Record"@
            &&& !reply_has(s, '^') && !reply_has(s, ';') && reply_has(s, '~') ==> r.pec == "Playing"@
            &&& !reply_has(s, '^') && !reply_has(s, ';') && !reply_has(s, '~') && reply_has(s, ',') ==> r.pec == "Ready to Play"@
            &&& !reply_has(s, '^') && !reply_has(s, ';') && !reply_has(s, '~') && !reply_has(s, ',') && reply_has(s, '/') ==> r.pec == "Ignore"@
            &&& !reply_has(s, '^') && !reply_has(s, ';') && !reply_has(s, '~') && !reply_has(s, ',') && !reply_has(s, '/') ==> r.pec == st.pec
            &&& r.is_tracking == !reply_has(s, 'n')
            &&& r.is_slewing == !reply_has(s, 'N')
            &&& r.is_home == reply_has(s, 'H')
            &&& r.home_wait == reply_has(s, 'w')
            &&& r.pps == reply_has(s, 'S')
            &&& r.pec_recorded == reply_has(s, 'R')
            &&& r.guide_status == if reply_has(s, 'G') { "Guide pulse active"@ } else { Seq::<char>::empty() }
        }),
{
}

/// The tail of a `:GU#` reply longer than three characters: its last three
/// characters are the pulse-guide rate, the guide rate and the error digit
/// (0 when that character is not a decimal digit); a shorter reply leaves
/// them as they were.
pub proof fn lemma_gu_tail(st: OnStepStatusView, s: Seq<char>)
    ensures
        ({
            let r = gu_update(st, s);
            let n = s.len();
            &&& n > 3 ==> r.pulse_guide_rate == seq![s[n - 3]] && r.guide_rate == seq![s[n - 2]]
            &&& n > 3 && '0' <= s[n - 1] <= '9' ==> r.general_error == s[n - 1] as int - '0' as int
            &&& n > 3 && !('0' <= s[n - 1] <= '9') ==> r.general_error == 0
            &&& n <= 3 ==> r.pulse_guide_rate == st.pulse_guide_rate && r.guide_rate == st.guide_rate
                && r.general_error == st.general_error
        }),
{
}

/// The manual speed presets and their OnStep rate codes: `0.25x` 0, `0.5x`
/// 1, `1x` G, `2x` 3, `4x` 4, `8x` C, `20x` M, `48x` F, `half` S, `max` 9;
/// any other text selects the `1x` code. Distinct presets have distinct
/// codes.
pub proof fn lemma_speed_codes()
    ensures
        speed_code("0.25x"@) == seq!['0'],
        speed_code("0.5x"@) == seq!['1'],
        speed_code("1x"@) == seq!['G'],
        speed_code("2x"@) == seq!['3'],
        speed_code("4x"@) == seq!['4'],
        speed_code("8x"@) == seq!['C'],
        speed_code("20x"@) == seq!['M'],
        speed_code("48x"@) == seq!['F'],
        speed_code("half"@) == seq!['S'],
        speed_code("max"@) == seq!['9'],
        forall|t: Seq<char>|
            t != "0.25x"@ && t != "0.5x"@ && t != "1x"@ && t != "2x"@ && t != "4x"@ && t != "8x"@ && t != "20x"@
                && t != "48x"@ && t != "half"@ && t != "max"@ ==> #[trigger] speed_code(t) == seq!['G'],
        forall|a: Seq<char>, b: Seq<char>|
            is_speed_preset(a) && is_speed_preset(b) && a != b ==> #[trigger] speed_code(a) != #[trigger] speed_code(b),
{
    reveal_strlit("0.25x");
    reveal_strlit("0.5x");
    reveal_strlit("1x");
    reveal_strlit("2x");
    reveal_strlit("4x");
    reveal_strlit("8x");
    reveal_strlit("20x");
    reveal_strlit("48x");
    reveal_strlit("half");
    reveal_strlit("max");
    reveal_strlit("0");
    reveal_strlit("1");
    reveal_strlit("G");
    reveal_strlit("3");
    reveal_strlit("4");
    reveal_strlit("C");
    reveal_strlit("M");
    reveal_strlit("F");
    reveal_strlit("S");
    reveal_strlit("9");
    assert("0.25x"@.len() == 5 && "0.25x"@[0] == '0');
    assert("0.5x"@.len() == 4 && "0.5x"@[0] == '0');
    assert("1x"@.len() == 2 && "1x"@[0] == '1');
    assert("2x"@.len() == 2 && "2x"@[0] == '2');
    assert("4x"@.len() == 2 && "4x"@[0] == '4');
    assert("8x"@.len() == 2 && "8x"@[0] == '8');
    assert("20x"@.len() == 3 && "20x"@[0] == '2');
    assert("48x"@.len() == 3 && "48x"@[0] == '4');
    assert("half"@.len() == 4 && "half"@[0] == 'h');
    assert("max"@.len() == 3 && "max"@[0] == 'm');
    assert("0"@.len() == 1 && "0"@[0] == '0');
    assert("1"@.len() == 1 && "1"@[0] == '1');
    assert("G"@.len() == 1 && "G"@[0] == 'G');
    assert("3"@.len() == 1 && "3"@[0] == '3');
    assert("4"@.len() == 1 && "4"@[0] == '4');
    assert("C"@.len() == 1 && "C"@[0] == 'C');
    assert("M"@.len() == 1 && "M"@[0] == 'M');
    assert("F"@.len() == 1 && "F"@[0] == 'F');
    assert("S"@.len() == 1 && "S"@[0] == 'S');
    assert("9"@.len() == 1 && "9"@[0] == '9');
}

proof fn lemma_two_digits(n: nat)
    requires
        n < 100,
    ensures
        decimal2(n).len() == 2,
        crate::text::parse_unsigned(decimal2(n)) == Some(n),
{
    assert(crate::text::pow10(2) == 100) by {
        reveal_with_fuel(crate::text::pow10, 3);
    }
    crate::text::lemma_decimal_len_bound(n, 2);
    crate::text::lemma_parse_padded(n, 2);
}

/// The `%m/%d/%y` text of a date reads back as its fields: two-digit month,
/// day and year within the century, separated by `/`.
pub proof fn lemma_mdy_fields(d: CivilDateTime)
    requires
        d.month < 100,
        d.day < 100,
    ensures
        ({
            let t = mdy_text(d);
            &&& t.len() == 8
            &&& t[2] == '/' && t[5] == '/'
            &&& crate::text::parse_unsigned(t.subrange(0, 2)) == Some(d.month as nat)
            &&& crate::text::parse_unsigned(t.subrange(3, 5)) == Some(d.day as nat)
            &&& crate::text::parse_unsigned(t.subrange(6, 8)) == Some(((d.year as int) % 100) as nat)
        }),
{
    reveal_strlit("/");
    let y = ((d.year as int) % 100) as nat;
    lemma_two_digits(d.month as nat);
    lemma_two_digits(d.day as nat);
    lemma_two_digits(y);
    let t = mdy_text(d);
    assert(t.subrange(0, 2) =~= decimal2(d.month as nat));
    assert(t.subrange(3, 5) =~= decimal2(d.day as nat));
    assert(t.subrange(6, 8) =~= decimal2(y));
}

/// The `%H:%M:%S` text of a time reads back as its fields: two-digit hour,
/// minute and second, separated by `:`.
pub proof fn lemma_hms_fields(d: CivilDateTime)
    requires
        d.hour < 100,
        d.minute < 100,
        d.second < 100,
    ensures
        ({
            let t = hms_text(d);
            &&& t.len() == 8
            &&& t[2] == ':' && t[5] == ':'
            &&& crate::text::parse_unsigned(t.subrange(0, 2)) == Some(d.hour as nat)
            &&& crate::text::parse_unsigned(t.subrange(3, 5)) == Some(d.minute as nat)
            &&& crate::text::parse_unsigned(t.subrange(6, 8)) == Some(d.second as nat)
        }),
{
    reveal_strlit(":");
    lemma_two_digits(d.hour as nat);
    lemma_two_digits(d.minute as nat);
    lemma_two_digits(d.second as nat);
    let t = hms_text(d);
    assert(t.subrange(0, 2) =~= decimal2(d.hour as nat));
    assert(t.subrange(3, 5) =~= decimal2(d.minute as nat));
    assert(t.subrange(6, 8) =~= decimal2(d.second as nat));
}

/// A slew reply keeps its code, and the codes 0 to 8 carry OnStep's
/// messages: 0 goto possible, 1 below the horizon limit, 2 above the
/// overhead limit, 3 controller in standby, 4 mount parked, 5 goto in
/// progress, 6 outside limits, 7 hardware fault, 8 already in motion; any
/// other reply is an unspecified error.
pub proof fn lemma_slew_codes(r: Seq<char>)
    ensures
        slew_message(r).0 == r,
        r == "0"@ ==> slew_message(r).1 == "Goto is possible"@,
        r == "1"@ ==> slew_message(r).1 == "below the horizon limit"@,
        r == "2"@ ==> slew_message(r).1 == "above overhead limit"@,
        r == "3"@ ==> slew_message(r).1 == "controller in standby"@,
        r == "4"@ ==> slew_message(r).1 == "mount is parked"@,
        r == "5"@ ==> slew_message(r).1 == "Goto in progress"@,
        r == "6"@ ==> slew_message(r).1 == "outside limits (MaxDec, MinDec, UnderPoleLimit, MeridianLimit)"@,
        r == "7"@ ==> slew_message(r).1 == "hardware fault"@,
        r == "8"@ ==> slew_message(r).1 == "already in motion"@,
        !(r.len() == 1 && '0' <= r[0] <= '8') ==> slew_message(r).1 == "unspecified error"@,
{
    reveal_strlit("0");
    reveal_strlit("1");
    reveal_strlit("2");
    reveal_strlit("3");
    reveal_strlit("4");
    reveal_strlit("5");
    reveal_strlit("6");
    reveal_strlit("7");
    reveal_strlit("8");
    assert("0"@.len() == 1 && "0"@[0] == '0');
    assert("1"@.len() == 1 && "1"@[0] == '1');
    assert("2"@.len() == 1 && "2"@[0] == '2');
    assert("3"@.len() == 1 && "3"@[0] == '3');
    assert("4"@.len() == 1 && "4"@[0] == '4');
    assert("5"@.len() == 1 && "5"@[0] == '5');
    assert("6"@.len() == 1 && "6"@[0] == '6');
    assert("7"@.len() == 1 && "7"@[0] == '7');
    assert("8"@.len() == 1 && "8"@[0] == '8');
}

} // verus!
