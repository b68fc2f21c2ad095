use knight::config::Fallback;
use knight::config::Location;
use knight::date::Date;
use knight::daylight::Daylight;
use knight::daylight::accept_daylight_lookup;
use knight::daylight::daylight_when_disabled;
use knight::daylight::format_cached_times;
use knight::daylight::parse_cached_times;
use knight::time::Time;

fn six_thirty_pair() -> Daylight {
    Daylight {
        sunrise: Time { hour: 6, minute: 30, second: 0 },
        sunset: Time { hour: 18, minute: 30, second: 0 },
    }
}

#[test]
fn parses_a_cache_entry() {
    let pair = parse_cached_times("06:30:00,18:30:00").unwrap();
    assert_eq!(pair, six_thirty_pair());
}

#[test]
fn rejects_malformed_cache_entries() {
    for text in ["", ",", "06:30:00", "06:30:00,", "06:30:00,18:30", "06:30:00;18:30:00",
        "24:00:00,18:30:00", "06:30:00,18:30:00\n", "06:30:00,18:30:00,"] {
        assert!(parse_cached_times(text).is_none(), "text {:?}", text);
    }
}

#[test]
fn cache_entry_round_trips() {
    let pair = six_thirty_pair();
    let text = format_cached_times(&pair);
    assert_eq!(text, "06:30:00,18:30:00");
    assert_eq!(parse_cached_times(&text), Some(pair));
}

#[test]
fn disabled_location_takes_the_fallback_verbatim() {
    let fallback = Fallback {
        sunrise: Time { hour: 7, minute: 0, second: 0 },
        sunset: Time { hour: 19, minute: 0, second: 0 },
    };
    let settings = Location { enabled: false, latitude: None, longitude: None };
    let pair = daylight_when_disabled(&settings, &fallback).unwrap();
    assert_eq!(pair.sunrise, fallback.sunrise);
    assert_eq!(pair.sunset, fallback.sunset);
}

#[test]
fn enabled_location_moves_past_the_fallback_tier() {
    let fallback = Fallback {
        sunrise: Time { hour: 7, minute: 0, second: 0 },
        sunset: Time { hour: 19, minute: 0, second: 0 },
    };
    let settings = Location { enabled: true, latitude: None, longitude: None };
    assert!(daylight_when_disabled(&settings, &fallback).is_none());
}

#[test]
fn accepts_a_daylight_body_and_prepares_its_cache_entry() {
    let today = Date { year: 2026, month: 10, day: 11 };
    let body = "{\"results\":{\"sunrise\":\"06:12:34\",\"sunset\":\"18:45:56\"},\"status\":\"OK\"}";
    let (pair, cache) = accept_daylight_lookup(Some(body), &today).unwrap();
    assert_eq!(pair.sunrise, Time { hour: 6, minute: 12, second: 34 });
    assert_eq!(pair.sunset, Time { hour: 18, minute: 45, second: 56 });
    assert_eq!(cache, "06:12:34,18:45:56");
    assert_eq!(parse_cached_times(&cache), Some(pair));
}

#[test]
fn trusts_a_response_that_names_today() {
    let today = Date { year: 2026, month: 10, day: 11 };
    let body = "{\"results\":{\"sunrise\":\"06:00:00\",\"sunset\":\"18:00:00\",\"date\":\"2026-10-11\"}}";
    assert!(accept_daylight_lookup(Some(body), &today).is_some());
}

#[test]
fn refuses_a_response_that_names_another_day() {
    let today = Date { year: 2026, month: 10, day: 11 };
    let body = "{\"results\":{\"sunrise\":\"06:00:00\",\"sunset\":\"18:00:00\",\"date\":\"2026-10-12\"}}";
    assert!(accept_daylight_lookup(Some(body), &today).is_none());
}

#[test]
fn rejects_failed_or_unreadable_daylight_lookups() {
    let today = Date { year: 2026, month: 10, day: 11 };
    assert!(accept_daylight_lookup(None, &today).is_none());
    assert!(accept_daylight_lookup(Some("not json"), &today).is_none());
    assert!(accept_daylight_lookup(Some("{}"), &today).is_none());
    assert!(accept_daylight_lookup(Some("{\"results\":{}}"), &today).is_none());
    assert!(
        accept_daylight_lookup(Some("{\"results\":{\"sunrise\":\"6:30 AM\",\"sunset\":\"18:30:00\"}}"), &today)
            .is_none()
    );
}

#[test]
fn ignores_a_date_member_that_is_no_text() {
    let today = Date { year: 2026, month: 10, day: 11 };
    let body = "{\"results\":{\"sunrise\":\"06:00:00\",\"sunset\":\"18:00:00\",\"date\":123}}";
    assert!(accept_daylight_lookup(Some(body), &today).is_some());
}
