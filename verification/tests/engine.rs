use knight::config::Configuration;
use knight::config::Fallback;
use knight::config::Location;
use knight::commands::Error;
use knight::date::Date;
use knight::daylight::Daylight;
use knight::engine::Engine;
use knight::engine::Event;
use knight::engine::Step;
use knight::engine::Verdict;
use knight::engine::verdict_for;
use knight::time::Time;

fn today() -> Date {
    Date { year: 2026, month: 10, day: 11 }
}

fn at(hour: u8, minute: u8, second: u8) -> Time {
    Time { hour, minute, second }
}

fn six_thirty_pair() -> Daylight {
    Daylight {
        sunrise: at(6, 30, 0),
        sunset: at(18, 30, 0),
    }
}

fn disabled_configuration() -> Configuration {
    Configuration {
        fallback: Fallback { sunrise: at(6, 30, 0), sunset: at(18, 30, 0) },
        location: Location { enabled: false, latitude: None, longitude: None },
    }
}

#[test]
fn verdict_boundaries_are_sunrise_inclusive_sunset_exclusive() {
    let pair = six_thirty_pair();
    assert_eq!(verdict_for(&at(6, 30, 0), &pair), Verdict::Light);
    assert_eq!(verdict_for(&at(18, 29, 59), &pair), Verdict::Light);
    assert_eq!(verdict_for(&at(18, 30, 0), &pair), Verdict::Dark);
    assert_eq!(verdict_for(&at(6, 29, 59), &pair), Verdict::Dark);
    assert_eq!(verdict_for(&at(0, 0, 0), &pair), Verdict::Dark);
    assert_eq!(verdict_for(&at(12, 0, 0), &pair), Verdict::Light);
}

#[test]
fn an_empty_marker_ends_the_run_suppressed() {
    let engine = Engine::start(at(12, 0, 0), today());
    let engine = engine.advance(Event::Text(Some(String::new())));
    assert!(matches!(engine.step, Step::Done(Verdict::Suppressed)));
}

#[test]
fn no_marker_and_disabled_location_decide_from_the_fallback() {
    // Daytime: the built-in fallback pair alone makes the verdict light.
    let engine = Engine::start(at(12, 0, 0), today());
    let engine = engine.advance(Event::Text(None));
    assert!(matches!(engine.step, Step::ReadSettings));
    let engine = engine.advance(Event::Settings(Some(disabled_configuration())));
    assert!(matches!(engine.step, Step::Done(Verdict::Light)));

    // Night: the same pair makes it dark.
    let engine = Engine::start(at(22, 0, 0), today());
    let engine = engine.advance(Event::Text(None));
    let engine = engine.advance(Event::Settings(Some(disabled_configuration())));
    assert!(matches!(engine.step, Step::Done(Verdict::Dark)));
}

#[test]
fn a_stale_marker_is_removed_and_the_run_proceeds() {
    let engine = Engine::start(at(12, 0, 0), today());
    let engine = engine.advance(Event::Text(Some("2026-10-10".to_string())));
    assert!(matches!(engine.step, Step::RemoveMarker));
    let engine = engine.advance(Event::Ack);
    assert!(matches!(engine.step, Step::ReadSettings));
    let engine = engine.advance(Event::Settings(Some(disabled_configuration())));
    assert!(matches!(engine.step, Step::Done(Verdict::Light)));
}

#[test]
fn absent_settings_take_the_compiled_in_defaults() {
    let engine = Engine::start(at(12, 0, 0), today());
    let engine = engine.advance(Event::Text(None));
    let engine = engine.advance(Event::Settings(None));
    // The default location settings leave lookup enabled, so the engine
    // turns to the per-date cache.
    assert!(matches!(engine.step, Step::ReadDaylightCache(_)));
    assert_eq!(engine.config.fallback.sunrise, at(6, 30, 0));
    assert_eq!(engine.config.fallback.sunset, at(18, 30, 0));
    let engine = engine.advance(Event::Text(Some("05:00:00,21:00:00".to_string())));
    assert!(matches!(engine.step, Step::Done(Verdict::Light)));
}

#[test]
fn a_cache_entry_for_today_decides_without_any_lookup() {
    let engine = Engine::start(at(4, 0, 0), today());
    let engine = engine.advance(Event::Text(None));
    let engine = engine.advance(Event::Settings(None));
    let engine = engine.advance(Event::Text(Some("05:00:00,21:00:00".to_string())));
    assert!(matches!(engine.step, Step::Done(Verdict::Dark)));
}

#[test]
fn one_explicit_coordinate_fails_the_run() {
    let settings = Configuration {
        fallback: Fallback { sunrise: at(6, 30, 0), sunset: at(18, 30, 0) },
        location: Location { enabled: true, latitude: Some(1_000_000), longitude: None },
    };
    let engine = Engine::start(at(12, 0, 0), today());
    let engine = engine.advance(Event::Text(None));
    let engine = engine.advance(Event::Settings(Some(settings)));
    let engine = engine.advance(Event::Text(None));
    assert!(matches!(engine.step, Step::Failed(Error::InvalidConfig)));
}

#[test]
fn explicit_coordinates_go_straight_to_the_daylight_lookup() {
    let settings = Configuration {
        fallback: Fallback { sunrise: at(6, 30, 0), sunset: at(18, 30, 0) },
        location: Location {
            enabled: true,
            latitude: Some(51_507_400),
            longitude: Some(-127_800),
        },
    };
    let engine = Engine::start(at(12, 0, 0), today());
    let engine = engine.advance(Event::Text(None));
    let engine = engine.advance(Event::Settings(Some(settings)));
    let engine = engine.advance(Event::Text(None));
    match &engine.step {
        Step::FetchDaylight(point, date) => {
            assert_eq!(point.latitude, 51_507_400);
            assert_eq!(point.longitude, -127_800);
            assert_eq!(*date, today());
        },
        other => panic!("unexpected step {:?}", std::mem::discriminant(other)),
    }
    let body = "{\"results\":{\"sunrise\":\"05:45:00\",\"sunset\":\"20:15:00\"}}";
    let engine = engine.advance(Event::Text(Some(body.to_string())));
    match &engine.step {
        Step::WriteDaylightCache(date, text) => {
            assert_eq!(*date, today());
            assert_eq!(text, "05:45:00,20:15:00");
        },
        other => panic!("unexpected step {:?}", std::mem::discriminant(other)),
    }
    let engine = engine.advance(Event::Ack);
    assert!(matches!(engine.step, Step::Done(Verdict::Light)));
}

#[test]
fn a_cached_location_skips_the_geolocation_lookup() {
    let engine = Engine::start(at(12, 0, 0), today());
    let engine = engine.advance(Event::Text(None));
    let engine = engine.advance(Event::Settings(None));
    let engine = engine.advance(Event::Text(None));
    assert!(matches!(engine.step, Step::ReadGeolocationCache));
    let engine = engine.advance(Event::Text(Some("51.507400,-0.127800".to_string())));
    match &engine.step {
        Step::FetchDaylight(point, _) => {
            assert_eq!(point.latitude, 51_507_400);
            assert_eq!(point.longitude, -127_800);
        },
        other => panic!("unexpected step {:?}", std::mem::discriminant(other)),
    }
}

#[test]
fn a_fresh_geolocation_is_cached_before_the_daylight_lookup() {
    let engine = Engine::start(at(12, 0, 0), today());
    let engine = engine.advance(Event::Text(None));
    let engine = engine.advance(Event::Settings(None));
    let engine = engine.advance(Event::Text(None));
    let engine = engine.advance(Event::Text(Some("stale nonsense".to_string())));
    assert!(matches!(engine.step, Step::FetchGeolocation));
    let body = "{\"latitude\":12.5,\"longitude\":-3.25}";
    let engine = engine.advance(Event::Text(Some(body.to_string())));
    match &engine.step {
        Step::WriteGeolocationCache(text) => assert_eq!(text, "12.500000,-3.250000"),
        other => panic!("unexpected step {:?}", std::mem::discriminant(other)),
    }
    let engine = engine.advance(Event::Ack);
    match &engine.step {
        Step::FetchDaylight(point, _) => assert_eq!(point.latitude, 12_500_000),
        other => panic!("unexpected step {:?}", std::mem::discriminant(other)),
    }
}

#[test]
fn failed_lookups_fall_back_to_the_configured_times() {
    // The geolocation lookup fails outright: the fallback pair decides.
    let engine = Engine::start(at(12, 0, 0), today());
    let engine = engine.advance(Event::Text(None));
    let engine = engine.advance(Event::Settings(None));
    let engine = engine.advance(Event::Text(None));
    let engine = engine.advance(Event::Text(None));
    assert!(matches!(engine.step, Step::FetchGeolocation));
    let engine = engine.advance(Event::Text(None));
    assert!(matches!(engine.step, Step::Done(Verdict::Light)));

    // The daylight lookup fails after a cached location: same fallback.
    let engine = Engine::start(at(23, 0, 0), today());
    let engine = engine.advance(Event::Text(None));
    let engine = engine.advance(Event::Settings(None));
    let engine = engine.advance(Event::Text(None));
    let engine = engine.advance(Event::Text(Some("51.507400,-0.127800".to_string())));
    let engine = engine.advance(Event::Text(None));
    assert!(matches!(engine.step, Step::Done(Verdict::Dark)));
}

#[test]
fn unreadable_lookup_bodies_fall_back_like_failed_ones() {
    // A geolocation body that is not JSON.
    let engine = Engine::start(at(12, 0, 0), today());
    let engine = engine.advance(Event::Text(None));
    let engine = engine.advance(Event::Settings(None));
    let engine = engine.advance(Event::Text(None));
    let engine = engine.advance(Event::Text(None));
    let engine = engine.advance(Event::Text(Some("<html>busy</html>".to_string())));
    assert!(matches!(engine.step, Step::Done(Verdict::Light)));

    // A daylight body whose date names another day.
    let engine = Engine::start(at(12, 0, 0), today());
    let engine = engine.advance(Event::Text(None));
    let engine = engine.advance(Event::Settings(None));
    let engine = engine.advance(Event::Text(None));
    let engine = engine.advance(Event::Text(Some("51.507400,-0.127800".to_string())));
    let body = "{\"results\":{\"sunrise\":\"05:00:00\",\"sunset\":\"21:00:00\",\"date\":\"2026-10-12\"}}";
    let engine = engine.advance(Event::Text(Some(body.to_string())));
    assert!(matches!(engine.step, Step::Done(Verdict::Light)));
}
