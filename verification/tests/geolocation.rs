use knight::commands::Error;
use knight::config::Location;
use knight::geolocation::Geolocation;
use knight::geolocation::accept_geolocation_lookup;
use knight::geolocation::format_geolocation;
use knight::geolocation::geolocation_from_settings;
use knight::geolocation::parse_cached_geolocation;

#[test]
fn parses_a_cached_pair_into_micro_degrees() {
    let point = parse_cached_geolocation("51.5074,-0.1278").unwrap();
    assert_eq!(point, Geolocation { latitude: 51_507_400, longitude: -127_800 });
}

#[test]
fn parses_whole_degree_pairs() {
    let point = parse_cached_geolocation("12,-3").unwrap();
    assert_eq!(point, Geolocation { latitude: 12_000_000, longitude: -3_000_000 });
}

#[test]
fn ignores_fraction_digits_beyond_the_sixth() {
    let point = parse_cached_geolocation("1.23456789,0.0").unwrap();
    assert_eq!(point.latitude, 1_234_567);
}

#[test]
fn rejects_pairs_off_the_globe() {
    assert!(parse_cached_geolocation("90.000001,0.0").is_none());
    assert!(parse_cached_geolocation("0.0,180.000001").is_none());
    assert!(parse_cached_geolocation("-90.000001,0.0").is_none());
    assert!(parse_cached_geolocation("90.0,180.0").is_some());
}

#[test]
fn rejects_malformed_pairs() {
    for text in ["", ",", "51.5", "51.5;0.1", "51.5,", ",0.1", "abc,def", "51.5074,-0.1278\n",
        "1e2,0", "NaN,0", " 51.5,0.1", "51.,0.1", "1234,0"] {
        assert!(parse_cached_geolocation(text).is_none(), "text {:?}", text);
    }
}

#[test]
fn cache_text_round_trips() {
    for point in [Geolocation { latitude: 51_507_400, longitude: -127_800 },
        Geolocation { latitude: 0, longitude: 0 },
        Geolocation { latitude: -90_000_000, longitude: 180_000_000 }] {
        let text = format_geolocation(&point);
        assert_eq!(parse_cached_geolocation(&text), Some(point));
    }
}

#[test]
fn formats_micro_degrees_as_plain_decimals() {
    let point = Geolocation { latitude: 51_507_400, longitude: -127_800 };
    assert_eq!(format_geolocation(&point), "51.507400,-0.127800");
}

#[test]
fn explicit_coordinates_are_returned_verbatim() {
    let settings = Location {
        enabled: true,
        latitude: Some(51_507_400),
        longitude: Some(-127_800),
    };
    let resolved = geolocation_from_settings(&settings).unwrap().unwrap();
    assert_eq!(resolved, Geolocation { latitude: 51_507_400, longitude: -127_800 });
}

#[test]
fn one_coordinate_alone_is_an_invalid_configuration() {
    let only_latitude = Location { enabled: true, latitude: Some(1), longitude: None };
    assert!(matches!(geolocation_from_settings(&only_latitude), Err(Error::InvalidConfig)));
    let only_longitude = Location { enabled: true, latitude: None, longitude: Some(1) };
    assert!(matches!(geolocation_from_settings(&only_longitude), Err(Error::InvalidConfig)));
}

#[test]
fn unset_coordinates_defer_to_later_tiers() {
    let settings = Location { enabled: true, latitude: None, longitude: None };
    assert!(matches!(geolocation_from_settings(&settings), Ok(None)));
}

#[test]
fn accepts_a_lookup_body_and_prepares_its_cache_entry() {
    let body = "{\"latitude\":12.5,\"longitude\":-3.25,\"countryName\":\"X\"}";
    let (point, cache) = accept_geolocation_lookup(Some(body)).unwrap();
    assert_eq!(point, Geolocation { latitude: 12_500_000, longitude: -3_250_000 });
    assert_eq!(cache, "12.500000,-3.250000");
    assert_eq!(parse_cached_geolocation(&cache), Some(point));
}

#[test]
fn rejects_failed_or_unreadable_lookups() {
    assert!(accept_geolocation_lookup(None).is_none());
    assert!(accept_geolocation_lookup(Some("not json")).is_none());
    assert!(accept_geolocation_lookup(Some("{}")).is_none());
    assert!(accept_geolocation_lookup(Some("{\"latitude\":12.5}")).is_none());
    assert!(accept_geolocation_lookup(Some("{\"latitude\":\"a\",\"longitude\":\"b\"}")).is_none());
    assert!(accept_geolocation_lookup(Some("{\"latitude\":95.0,\"longitude\":0.0}")).is_none());
}
