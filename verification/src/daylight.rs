//! Daylight: the sunrise/sunset pair that separates light from dark on a
//! given date, the `HH:MM:SS,HH:MM:SS` text form of its per-date cache
//! entry, and the tiers that resolve it.

use vstd::prelude::*;

use crate::config::Fallback;
use crate::config::Location;
use crate::date::Date;
use crate::date::date_of_text;
use crate::date::is_date_text;
use crate::json::results_member_text;
use crate::json::results_string_member;
use crate::text::ascii_to_string;
use crate::text::opt_chars;
use crate::text::bytes_of;
use crate::time::Time;
use crate::time::is_time_text;
use crate::time::lemma_time_text_ascii;
use crate::time::parse_time;
use crate::time::parse_time_bytes;
use crate::time::push_time_text;
use crate::time::time_of_text;
use crate::time::time_text;

verus! {

/// The sunrise/sunset pair for one calendar date.
#[derive(Debug, Copy, Clone, PartialEq, Eq, Structural)]
pub struct Daylight {
    pub sunrise: Time,
    pub sunset: Time,
}

impl Daylight {
    /// Whether both times are real times of day.
    pub open spec fn wf(self) -> bool {
        self.sunrise.valid() && self.sunset.valid()
    }
}

/// The per-date cache content for a daylight pair: sunrise, a comma,
/// sunset.
pub open spec fn daylight_text(d: Daylight) -> Seq<u8> {
    time_text(d.sunrise) + seq![44u8] + time_text(d.sunset)
}

/// Whether the bytes read `HH:MM:SS,HH:MM:SS` with two real times of day.
pub open spec fn is_daylight_text(s: Seq<u8>) -> bool {
    &&& s.len() == 17
    &&& s[8] == 44
    &&& is_time_text(s.take(8))
    &&& is_time_text(s.skip(9))
}

/// The daylight pair that a well-shaped cache entry denotes.
pub open spec fn daylight_of_text(s: Seq<u8>) -> Daylight {
    Daylight { sunrise: time_of_text(s.take(8)), sunset: time_of_text(s.skip(9)) }
}

/// Parses a cached `sunrise,sunset` entry; anything else is rejected, and
/// the caller treats the entry as missing.
pub fn parse_cached_times(content: &str) -> (r: Option<Daylight>)
    ensures
        match r {
            Some(d) => is_daylight_text(bytes_of(content@)) && d == daylight_of_text(
                bytes_of(content@),
            ) && d.wf(),
            None => !is_daylight_text(bytes_of(content@)),
        },
{
    let b: &[u8] = content.as_bytes();
    if b.len() != 17 {
        return None;
    }
    if b[8] != 44 {
        return None;
    }
    let (left, rest) = b.split_at(8);
    let (_comma, right) = rest.split_at(1);
    proof {
        assert(left@ =~= b@.take(8));
        assert(right@ =~= b@.skip(9));
    }
    let sunrise: Time = match parse_time_bytes(left) {
        Some(t) => t,
        None => { return None; },
    };
    let sunset: Time = match parse_time_bytes(right) {
        Some(t) => t,
        None => { return None; },
    };
    Some(Daylight { sunrise, sunset })
}

/// Renders a daylight pair as its cache entry `sunrise,sunset`.
pub fn format_cached_times(d: &Daylight) -> (r: String)
    requires
        d.wf(),
    ensures
        bytes_of(r@) == daylight_text(*d),
{
    let mut out: Vec<u8> = Vec::new();
    push_time_text(&mut out, &d.sunrise);
    out.push(44);
    push_time_text(&mut out, &d.sunset);
    proof {
        assert(out@ =~= daylight_text(*d));
        lemma_time_text_ascii(d.sunrise);
        lemma_time_text_ascii(d.sunset);
        assert forall|j: int| 0 <= j < out@.len() implies out@[j] < 128 by {
            let a = time_text(d.sunrise);
            let b = time_text(d.sunset);
            if j < 8 {
                assert(out@[j] == a[j]);
            } else if j > 8 {
                assert(out@[j] == b[j - 9]);
            }
        }
    }
    ascii_to_string(out)
}

/// Writing a daylight cache entry and reading it back returns the
/// identical sunrise/sunset pair; the cache text form is lossless.
pub proof fn lemma_daylight_text_round_trip(d: Daylight)
    requires
        d.wf(),
    ensures
        is_daylight_text(daylight_text(d)),
        daylight_of_text(daylight_text(d)) == d,
{
    let s = daylight_text(d);
    assert(s.take(8) =~= time_text(d.sunrise));
    assert(s.skip(9) =~= time_text(d.sunset));
    crate::time::lemma_time_text_round_trip(d.sunrise);
    crate::time::lemma_time_text_round_trip(d.sunset);
}

/// The first resolution tier: with location-based lookup disabled, the
/// fallback times are the daylight pair, and neither the cache nor the
/// network is consulted.
pub fn daylight_when_disabled(location: &Location, fallback: &Fallback) -> (r: Option<Daylight>)
    ensures
        !location.enabled ==> r == Some(
            Daylight { sunrise: fallback.sunrise, sunset: fallback.sunset },
        ),
        location.enabled ==> r is None,
{
    if !location.enabled {
        Some(Daylight { sunrise: fallback.sunrise, sunset: fallback.sunset })
    } else {
        None
    }
}

/// Whether an optional `date` member, as the body names it, lets a
/// response be trusted for `today`: a body that names no usable date is
/// trusted as asked for, one that names a `YYYY-MM-DD` date is trusted
/// exactly for that date, and anything else is refused.
pub open spec fn spec_response_date_ok(named: Option<Seq<char>>, today: Date) -> bool {
    match named {
        None => true,
        Some(text) => is_date_text(bytes_of(text)) && date_of_text(bytes_of(text)) == today,
    }
}

/// What the daylight lookup acceptance decides, as a function of the
/// response body and `today`: the pair read from the body's
/// `results.sunrise` and `results.sunset` members, provided both are
/// `HH:MM:SS` texts and any `results.date` member names `today`; `None`
/// for a failed request or any body that falls short of that.
pub open spec fn spec_daylight_acceptance(body: Option<Seq<char>>, today: Date) -> Option<
    Daylight,
> {
    match body {
        None => None,
        Some(text) => {
            let sunrise = results_member_text(text, "sunrise"@);
            let sunset = results_member_text(text, "sunset"@);
            if sunrise is Some && is_time_text(bytes_of(sunrise->Some_0)) && sunset is Some
                && is_time_text(bytes_of(sunset->Some_0)) && spec_response_date_ok(
                results_member_text(text, "date"@),
                today,
            ) {
                Some(
                    Daylight {
                        sunrise: time_of_text(bytes_of(sunrise->Some_0)),
                        sunset: time_of_text(bytes_of(sunset->Some_0)),
                    },
                )
            } else {
                None
            }
        },
    }
}

/// Accepts what the remote daylight lookup answered, `None` for a failed
/// request. Returns exactly the pair that `spec_daylight_acceptance`
/// reads from the body, with the cache content to persist for it under
/// `today`; `None` when the body falls short, and a failure here is never
/// fatal — the caller falls back.
///
/// When the response carries a usable `date` member that names a day
/// other than `today`, the response is not trusted for `today`: nothing
/// is cached and the caller falls back, so an entry is never cached under
/// a date it does not belong to. A `date` member that is no string is
/// ignored, like an absent one.
pub fn accept_daylight_lookup(body: Option<&str>, today: &Date) -> (r: Option<(Daylight, String)>)
    requires
        today.valid(),
    ensures
        match (r, spec_daylight_acceptance(opt_chars(body), *today)) {
            (Some(entry), Some(pair)) => entry.0 == pair && entry.0.wf() && bytes_of(entry.1@)
                == daylight_text(pair),
            (None, None) => true,
            _ => false,
        },
{
    let text: &str = match body {
        Some(t) => t,
        None => { return None; },
    };
    let sunrise: Time = match results_string_member(text, "sunrise") {
        Some(member) => match parse_time(member.as_str()) {
            Some(time) => time,
            None => { return None; },
        },
        None => { return None; },
    };
    let sunset: Time = match results_string_member(text, "sunset") {
        Some(member) => match parse_time(member.as_str()) {
            Some(time) => time,
            None => { return None; },
        },
        None => { return None; },
    };
    match results_string_member(text, "date") {
        Some(member) => match crate::date::parse_date(member.as_str()) {
            Some(named) => {
                if !(named == *today) {
                    return None;
                }
            },
            None => { return None; },
        },
        None => {},
    }
    let pair = Daylight { sunrise, sunset };
    let cache: String = format_cached_times(&pair);
    proof {
        lemma_daylight_text_round_trip(pair);
    }
    Some((pair, cache))
}

} // verus!
