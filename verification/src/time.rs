//! Times of day with whole-second resolution, and the `HH:MM:SS` text form
//! used by the per-date daylight cache and the remote daylight service.

use vstd::prelude::*;

use crate::text::ascii_to_string;
use crate::text::all_ascii;
use crate::text::bytes_of;
use crate::text::digit_byte;
use crate::text::digit_value;
use crate::text::is_digit_byte;
use crate::text::push_two_digits;
use crate::text::two_digit_number;

verus! {

/// A time of day, seconds resolution.
#[derive(Clone, Copy, Debug, PartialEq, Eq, Structural)]
pub struct Time {
    pub hour: u8,
    pub minute: u8,
    pub second: u8,
}

impl Time {
    /// Whether the fields form a real time of day.
    pub open spec fn valid(self) -> bool {
        self.hour < 24 && self.minute < 60 && self.second < 60
    }

    /// The time as seconds since midnight; this orders times of day.
    pub open spec fn spec_seconds(self) -> int {
        self.hour * 3600 + self.minute * 60 + self.second
    }

    pub fn new(hour: u8, minute: u8, second: u8) -> (t: Time)
        requires
            hour < 24,
            minute < 60,
            second < 60,
        ensures
            t == (Time { hour, minute, second }),
    {
        Time { hour, minute, second }
    }

    /// Seconds since midnight.
    pub fn seconds(&self) -> (s: u32)
        ensures
            s == self.spec_seconds(),
    {
        self.hour as u32 * 3600 + self.minute as u32 * 60 + self.second as u32
    }
}

/// Whether the bytes read `HH:MM:SS` with in-range hour, minute and second.
pub open spec fn is_time_text(s: Seq<u8>) -> bool {
    &&& s.len() == 8
    &&& is_digit_byte(s[0]) && is_digit_byte(s[1])
    &&& s[2] == 58
    &&& is_digit_byte(s[3]) && is_digit_byte(s[4])
    &&& s[5] == 58
    &&& is_digit_byte(s[6]) && is_digit_byte(s[7])
    &&& 10 * digit_value(s[0]) + digit_value(s[1]) < 24
    &&& 10 * digit_value(s[3]) + digit_value(s[4]) < 60
    &&& 10 * digit_value(s[6]) + digit_value(s[7]) < 60
}

/// The time that a well-formed `HH:MM:SS` text denotes.
pub open spec fn time_of_text(s: Seq<u8>) -> Time {
    Time {
        hour: (10 * digit_value(s[0]) + digit_value(s[1])) as u8,
        minute: (10 * digit_value(s[3]) + digit_value(s[4])) as u8,
        second: (10 * digit_value(s[6]) + digit_value(s[7])) as u8,
    }
}

/// The `HH:MM:SS` text for a time of day.
pub open spec fn time_text(t: Time) -> Seq<u8> {
    seq![
        digit_byte(t.hour as int / 10),
        digit_byte(t.hour as int % 10),
        58u8,
        digit_byte(t.minute as int / 10),
        digit_byte(t.minute as int % 10),
        58u8,
        digit_byte(t.second as int / 10),
        digit_byte(t.second as int % 10),
    ]
}

/// Parses `HH:MM:SS` from the given bytes; anything else is rejected.
pub fn parse_time_bytes(s: &[u8]) -> (r: Option<Time>)
    ensures
        match r {
            Some(t) => is_time_text(s@) && t == time_of_text(s@),
            None => !is_time_text(s@),
        },
{
    if s.len() != 8 {
        return None;
    }
    if !(s[2] == 58 && s[5] == 58) {
        return None;
    }
    let hour: u8 = match two_digit_number(s, 0) {
        Some(v) => v,
        None => { return None; },
    };
    let minute: u8 = match two_digit_number(s, 3) {
        Some(v) => v,
        None => { return None; },
    };
    let second: u8 = match two_digit_number(s, 6) {
        Some(v) => v,
        None => { return None; },
    };
    if hour < 24 && minute < 60 && second < 60 {
        Some(Time { hour, minute, second })
    } else {
        None
    }
}

/// Parses `HH:MM:SS` from a string; anything else is rejected.
pub fn parse_time(s: &str) -> (r: Option<Time>)
    ensures
        match r {
            Some(t) => is_time_text(bytes_of(s@)) && t == time_of_text(bytes_of(s@)),
            None => !is_time_text(bytes_of(s@)),
        },
{
    parse_time_bytes(s.as_bytes())
}

/// Appends the `HH:MM:SS` rendering of a valid time.
pub fn push_time_text(out: &mut Vec<u8>, t: &Time)
    requires
        t.valid(),
    ensures
        final(out)@ == old(out)@ + time_text(*t),
{
    push_two_digits(out, t.hour);
    out.push(58);
    push_two_digits(out, t.minute);
    out.push(58);
    push_two_digits(out, t.second);
    proof {
        assert(out@ =~= old(out)@ + time_text(*t));
    }
}

/// Renders a valid time as `HH:MM:SS`.
pub fn format_time(t: &Time) -> (r: String)
    requires
        t.valid(),
    ensures
        bytes_of(r@) == time_text(*t),
{
    let mut out: Vec<u8> = Vec::new();
    push_time_text(&mut out, t);
    proof {
        lemma_time_text_ascii(*t);
    }
    ascii_to_string(out)
}

/// The `HH:MM:SS` rendering of a valid time is all ASCII.
pub proof fn lemma_time_text_ascii(t: Time)
    requires
        t.valid(),
    ensures
        all_ascii(time_text(t)),
{
}

/// Rendering a valid time as `HH:MM:SS` and parsing it back returns the
/// same time; the text form is lossless.
pub proof fn lemma_time_text_round_trip(t: Time)
    requires
        t.valid(),
    ensures
        is_time_text(time_text(t)),
        time_of_text(time_text(t)) == t,
{
}

} // verus!
