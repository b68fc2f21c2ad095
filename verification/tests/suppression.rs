use knight::date::Date;
use knight::suppression::is_suppressed;

fn day(year: u16, month: u8, day: u8) -> Date {
    Date { year, month, day }
}

#[test]
fn absent_marker_is_not_suppressed() {
    let today = day(2026, 10, 11);
    let outcome = is_suppressed(None, &today);
    assert!(!outcome.suppressed);
    assert!(!outcome.remove_marker);
}

#[test]
fn empty_marker_suppresses_on_any_date() {
    for today in [day(2026, 10, 11), day(2000, 1, 1), day(9999, 12, 31)] {
        let outcome = is_suppressed(Some(""), &today);
        assert!(outcome.suppressed);
        assert!(!outcome.remove_marker);
    }
}

#[test]
fn marker_dated_today_suppresses() {
    let today = day(2026, 10, 11);
    let outcome = is_suppressed(Some("2026-10-11"), &today);
    assert!(outcome.suppressed);
    assert!(!outcome.remove_marker);
}

#[test]
fn marker_dated_in_the_future_suppresses() {
    let today = day(2026, 10, 11);
    for marker in ["2026-10-12", "2026-11-01", "2027-01-01"] {
        let outcome = is_suppressed(Some(marker), &today);
        assert!(outcome.suppressed);
        assert!(!outcome.remove_marker);
    }
}

#[test]
fn marker_dated_in_the_past_is_removed() {
    let today = day(2026, 10, 11);
    for marker in ["2026-10-10", "2025-12-31", "0001-01-01"] {
        let outcome = is_suppressed(Some(marker), &today);
        assert!(!outcome.suppressed);
        assert!(outcome.remove_marker);
    }
}

#[test]
fn corrupt_marker_is_removed_and_does_not_suppress() {
    let today = day(2026, 10, 11);
    for marker in ["tomorrow", "2026-13-01", "2026-02-30", "2026-10-11\n", " 2026-10-11"] {
        let outcome = is_suppressed(Some(marker), &today);
        assert!(!outcome.suppressed, "marker {:?}", marker);
        assert!(outcome.remove_marker, "marker {:?}", marker);
    }
}
