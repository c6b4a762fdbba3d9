//! Serialized command/response access to a device connection.
use vstd::prelude::*;

use std::time::Duration;

use crate::base::errors::VastResult;
use crate::text::{str_chars, string_from_chars};

verus! {

/// The duration `Duration::from_millis(millis)` builds.
pub uninterp spec fn millis_duration(millis: u64) -> Duration;

/// The duration `Duration::from_secs(secs)` builds.
pub uninterp spec fn secs_duration(secs: u64) -> Duration;

/// `Duration::from_millis`: builds the duration of `millis` milliseconds,
/// the same for the same argument; it does not panic.
pub assume_specification[ core::time::Duration::from_millis ](millis: u64) -> (r: Duration)
    ensures
        r == millis_duration(millis),
;

/// `Duration::from_secs`: builds the duration of `secs` seconds, the same
/// for the same argument; it does not panic.
pub assume_specification[ core::time::Duration::from_secs ](secs: u64) -> (r: Duration)
    ensures
        r == secs_duration(secs),
;

/// How a reply is read after a command.
#[derive(Clone, Copy, Debug)]
pub struct ReceiveOptions {
    /// Pause between sending the command and reading the reply.
    pub delay: Duration,
    /// A terminator removed from the end of the reply when present.
    pub trim_suffix: Option<char>,
}

impl Default for ReceiveOptions {
    fn default() -> (r: Self)
        ensures
            r.trim_suffix is None,
    {
        ReceiveOptions { delay: Duration::from_millis(0), trim_suffix: None }
    }
}

/// A reply without its terminator: `received` less its last character when
/// that character is `trim_suffix`.
pub open spec fn trimmed_reply(received: Seq<char>, trim_suffix: Option<char>) -> Seq<char> {
    match trim_suffix {
        Some(c) => if received.len() > 0 && received.last() == c {
            received.drop_last()
        } else {
            received
        },
        None => received,
    }
}

/// Removes the terminator from a reply.
pub fn trim_reply(received: String, trim_suffix: Option<char>) -> (r: String)
    ensures
        r@ == trimmed_reply(received@, trim_suffix),
{
    match trim_suffix {
        Some(c) => {
            let chars = str_chars(received.as_str());
            let n = chars.len();
            if n > 0 && chars[n - 1] == c {
                let kept = crate::text::slice_range(chars.as_slice(), 0, n - 1);
                assert(kept@ =~= received@.drop_last());
                string_from_chars(kept.as_slice())
            } else {
                received
            }
        },
        None => received,
    }
}

/// Ordered command/response access to a device, as a connection worker
/// offers it: each call waits for its result.
pub trait CommandChannel {
    /// Sends one command without reading a reply.
    fn send(&self, command: &str) -> VastResult<()>;

    /// Sends one command and reads its reply as `options` say.
    fn send_receive_with_options(&self, command: &str, options: ReceiveOptions) -> VastResult<String>;

    /// Waits `delay` before the next request.
    fn pause(&self, delay: Duration);
}

} // verus!
