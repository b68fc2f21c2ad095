//! Suppression state: whether automatic theme switching is currently
//! paused. The on-disk marker file is modeled by its content: absent, empty
//! (paused indefinitely), a `YYYY-MM-DD` date (paused through the end of
//! that date), or anything else (corrupt, to be removed).

use vstd::prelude::*;

use crate::date::Date;
use crate::date::date_of_text;
use crate::date::date_text;
use crate::date::is_date_text;
use crate::date::parse_date;
use crate::text::bytes_of;

verus! {

/// What reading the suppression marker decides: whether switching is
/// paused now, and whether the marker file must be removed because it is
/// stale or corrupt.
#[derive(Clone, Copy, Debug, PartialEq, Eq, Structural)]
pub struct SuppressionOutcome {
    pub suppressed: bool,
    pub remove_marker: bool,
}

/// Whether switching is suppressed, given the marker's content (`None` for
/// an absent marker) and today's date.
pub open spec fn spec_suppressed(marker: Option<Seq<u8>>, today: Date) -> bool {
    match marker {
        None => false,
        Some(s) => s.len() == 0
            || (is_date_text(s) && date_of_text(s).spec_key() >= today.spec_key()),
    }
}

/// Whether the marker must be removed: it exists and holds either a date
/// that has passed or content that is no date at all.
pub open spec fn spec_remove_marker(marker: Option<Seq<u8>>, today: Date) -> bool {
    match marker {
        None => false,
        Some(s) => s.len() != 0
            && !(is_date_text(s) && date_of_text(s).spec_key() >= today.spec_key()),
    }
}

/// Decides the suppression state from the marker's content.
///
/// - No marker: not suppressed.
/// - Empty marker: suppressed indefinitely.
/// - A `YYYY-MM-DD` date `D`: suppressed exactly when `D` is today or
///   later; a passed date is stale and the marker is to be removed.
/// - Anything else: corrupt; not suppressed, and the marker is to be
///   removed (the state self-heals).
pub fn is_suppressed(marker: Option<&str>, today: &Date) -> (r: SuppressionOutcome)
    requires
        today.valid(),
    ensures
        r.suppressed == spec_suppressed(spec_marker_bytes(marker), *today),
        r.remove_marker == spec_remove_marker(spec_marker_bytes(marker), *today),
{
    match marker {
        None => SuppressionOutcome { suppressed: false, remove_marker: false },
        Some(content) => {
            if content.is_empty() {
                SuppressionOutcome { suppressed: true, remove_marker: false }
            } else {
                match parse_date(content) {
                    Some(date) => {
                        if today.before(&date) || date == *today {
                            SuppressionOutcome { suppressed: true, remove_marker: false }
                        } else {
                            SuppressionOutcome { suppressed: false, remove_marker: true }
                        }
                    },
                    None => SuppressionOutcome { suppressed: false, remove_marker: true },
                }
            }
        },
    }
}

/// The marker content as bytes, `None` for an absent marker.
pub open spec fn spec_marker_bytes(marker: Option<&str>) -> Option<Seq<u8>> {
    match marker {
        None => None,
        Some(s) => Some(bytes_of(s@)),
    }
}

/// A marker holding the text of a date `D` suppresses switching exactly
/// when `D` is today or later, and is removed exactly when `D` has
/// passed.
pub proof fn lemma_dated_marker(d: Date, today: Date)
    requires
        d.valid(),
        today.valid(),
    ensures
        spec_suppressed(Some(date_text(d)), today) == (d.spec_key() >= today.spec_key()),
        spec_remove_marker(Some(date_text(d)), today) == (d.spec_key() < today.spec_key()),
{
    crate::date::lemma_date_text_round_trip(d);
}

/// The marker the manual set operation writes — today's date — suppresses
/// switching for the rest of today and on no later day, so automatic
/// switching resumes tomorrow, removing the marker as it does.
pub proof fn lemma_set_suppresses_today_only(today: Date, later: Date)
    requires
        today.valid(),
        later.valid(),
    ensures
        spec_suppressed(Some(date_text(today)), today),
        later.spec_key() > today.spec_key() ==> !spec_suppressed(Some(date_text(today)), later)
            && spec_remove_marker(Some(date_text(today)), later),
{
    lemma_dated_marker(today, today);
    if later.spec_key() > today.spec_key() {
        lemma_dated_marker(today, later);
    }
}

/// An empty marker suppresses switching on every date, and is never
/// removed.
pub proof fn lemma_empty_marker(today: Date)
    ensures
        spec_suppressed(Some(Seq::<u8>::empty()), today),
        !spec_remove_marker(Some(Seq::<u8>::empty()), today),
{
}

/// A non-empty marker that parses as no date never suppresses switching,
/// and is always removed.
pub proof fn lemma_corrupt_marker(text: Seq<u8>, today: Date)
    requires
        text.len() != 0,
        !is_date_text(text),
    ensures
        !spec_suppressed(Some(text), today),
        spec_remove_marker(Some(text), today),
{
}

} // verus!
