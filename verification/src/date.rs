//! Calendar dates and the `YYYY-MM-DD` text form used by the suppression
//! marker and the names of per-date daylight cache entries.

use vstd::prelude::*;

use crate::text::ascii_to_string;
use crate::text::all_ascii;
use crate::text::bytes_of;
use crate::text::digit_byte;
use crate::text::digit_value;
use crate::text::is_digit_byte;
use crate::text::push_two_digits;
use crate::text::two_digit_number;

verus! {

/// A calendar date in the proleptic Gregorian calendar, years 0 through
/// 9999 (the range the four-digit text form can carry).
#[derive(Clone, Copy, Debug, PartialEq, Eq, Structural)]
pub struct Date {
    pub year: u16,
    pub month: u8,
    pub day: u8,
}

/// Whether a year has a 29th of February.
pub open spec fn is_leap_year(y: int) -> bool {
    y % 4 == 0 && (y % 100 != 0 || y % 400 == 0)
}

/// The number of days in a month of a given year.
pub open spec fn days_in_month(y: int, m: int) -> int {
    if m == 2 {
        if is_leap_year(y) {
            29
        } else {
            28
        }
    } else if m == 4 || m == 6 || m == 9 || m == 11 {
        30
    } else {
        31
    }
}

impl Date {
    /// Whether the fields form a real calendar date.
    pub open spec fn valid(self) -> bool {
        &&& self.year <= 9999
        &&& 1 <= self.month <= 12
        &&& 1 <= self.day <= days_in_month(self.year as int, self.month as int)
    }

    /// The date packed into one integer; this orders dates chronologically.
    pub open spec fn spec_key(self) -> int {
        self.year * 10000 + self.month * 100 + self.day
    }

    pub fn new(year: u16, month: u8, day: u8) -> (d: Date)
        requires
            (Date { year, month, day }).valid(),
        ensures
            d == (Date { year, month, day }),
    {
        Date { year, month, day }
    }

    /// Whether this date falls strictly before `other`.
    pub fn before(&self, other: &Date) -> (r: bool)
        requires
            self.valid(),
            other.valid(),
        ensures
            r == (self.spec_key() < other.spec_key()),
    {
        if self.year != other.year {
            self.year < other.year
        } else if self.month != other.month {
            self.month < other.month
        } else {
            self.day < other.day
        }
    }
}

/// Whether the bytes read `YYYY-MM-DD` and denote a real calendar date.
pub open spec fn is_date_text(s: Seq<u8>) -> bool {
    &&& s.len() == 10
    &&& is_digit_byte(s[0]) && is_digit_byte(s[1]) && is_digit_byte(s[2]) && is_digit_byte(s[3])
    &&& s[4] == 45
    &&& is_digit_byte(s[5]) && is_digit_byte(s[6])
    &&& s[7] == 45
    &&& is_digit_byte(s[8]) && is_digit_byte(s[9])
    &&& date_of_text(s).valid()
}

/// The date that a `YYYY-MM-DD` text denotes.
pub open spec fn date_of_text(s: Seq<u8>) -> Date {
    Date {
        year: (1000 * digit_value(s[0]) + 100 * digit_value(s[1]) + 10 * digit_value(s[2])
            + digit_value(s[3])) as u16,
        month: (10 * digit_value(s[5]) + digit_value(s[6])) as u8,
        day: (10 * digit_value(s[8]) + digit_value(s[9])) as u8,
    }
}

/// The `YYYY-MM-DD` text for a date.
pub open spec fn date_text(d: Date) -> Seq<u8> {
    seq![
        digit_byte(d.year as int / 1000),
        digit_byte(d.year as int / 100 % 10),
        digit_byte(d.year as int / 10 % 10),
        digit_byte(d.year as int % 10),
        45u8,
        digit_byte(d.month as int / 10),
        digit_byte(d.month as int % 10),
        45u8,
        digit_byte(d.day as int / 10),
        digit_byte(d.day as int % 10),
    ]
}

/// The number of days in a month of a given year.
pub fn month_length(year: u16, month: u8) -> (r: u8)
    ensures
        r == days_in_month(year as int, month as int),
{
    if month == 2 {
        if year % 4 == 0 && (year % 100 != 0 || year % 400 == 0) {
            29
        } else {
            28
        }
    } else if month == 4 || month == 6 || month == 9 || month == 11 {
        30
    } else {
        31
    }
}

/// Parses `YYYY-MM-DD` from the given bytes; a text that is shaped right
/// but names no real calendar date (month 13, 30th of February) is
/// rejected like any other.
pub fn parse_date_bytes(s: &[u8]) -> (r: Option<Date>)
    ensures
        match r {
            Some(d) => is_date_text(s@) && d == date_of_text(s@),
            None => !is_date_text(s@),
        },
{
    if s.len() != 10 {
        return None;
    }
    if !(s[4] == 45 && s[7] == 45) {
        return None;
    }
    let year_high: u8 = match two_digit_number(s, 0) {
        Some(v) => v,
        None => { return None; },
    };
    let year_low: u8 = match two_digit_number(s, 2) {
        Some(v) => v,
        None => { return None; },
    };
    let month: u8 = match two_digit_number(s, 5) {
        Some(v) => v,
        None => { return None; },
    };
    let day: u8 = match two_digit_number(s, 8) {
        Some(v) => v,
        None => { return None; },
    };
    let year: u16 = 100 * (year_high as u16) + (year_low as u16);
    if 1 <= month && month <= 12 && 1 <= day && day <= month_length(year, month) {
        Some(Date { year, month, day })
    } else {
        None
    }
}

/// Parses `YYYY-MM-DD` from a string; anything else is rejected.
pub fn parse_date(s: &str) -> (r: Option<Date>)
    ensures
        match r {
            Some(d) => is_date_text(bytes_of(s@)) && d == date_of_text(bytes_of(s@)),
            None => !is_date_text(bytes_of(s@)),
        },
{
    parse_date_bytes(s.as_bytes())
}

/// Renders a valid date as `YYYY-MM-DD`.
pub fn format_date(d: &Date) -> (r: String)
    requires
        d.valid(),
    ensures
        bytes_of(r@) == date_text(*d),
{
    let mut out: Vec<u8> = Vec::new();
    push_two_digits(&mut out, (d.year / 100) as u8);
    push_two_digits(&mut out, (d.year % 100) as u8);
    out.push(45);
    push_two_digits(&mut out, d.month);
    out.push(45);
    push_two_digits(&mut out, d.day);
    proof {
        lemma_year_digits(d.year as int);
        assert(out@ =~= date_text(*d));
        lemma_date_text_ascii(*d);
    }
    ascii_to_string(out)
}

/// Splitting a four-digit year into two two-digit halves renders the same
/// digits as taking each decimal place directly.
proof fn lemma_year_digits(y: int)
    requires
        0 <= y <= 9999,
    ensures
        y / 100 / 10 == y / 1000,
        y % 100 / 10 == y / 10 % 10,
        y % 100 % 10 == y % 10,
{
    assert(y / 100 / 10 == y / 1000) by (nonlinear_arith)
        requires 0 <= y <= 9999;
    assert(y % 100 / 10 == y / 10 % 10) by (nonlinear_arith)
        requires 0 <= y <= 9999;
    assert(y % 100 % 10 == y % 10) by (nonlinear_arith)
        requires 0 <= y <= 9999;
}

/// The `YYYY-MM-DD` rendering of a valid date is all ASCII.
pub proof fn lemma_date_text_ascii(d: Date)
    requires
        d.valid(),
    ensures
        all_ascii(date_text(d)),
{
}

/// Rendering a valid date as `YYYY-MM-DD` and parsing it back returns the
/// same date; the text form is lossless.
pub proof fn lemma_date_text_round_trip(d: Date)
    requires
        d.valid(),
    ensures
        is_date_text(date_text(d)),
        date_of_text(date_text(d)) == d,
{
    assert(1000 * (d.year as int / 1000) + 100 * (d.year as int / 100 % 10)
        + 10 * (d.year as int / 10 % 10) + d.year as int % 10 == d.year as int)
        by (nonlinear_arith)
        requires 0 <= d.year as int <= 9999;
}

} // verus!
