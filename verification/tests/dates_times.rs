use knight::date::Date;
use knight::date::format_date;
use knight::date::parse_date;
use knight::time::Time;
use knight::time::format_time;
use knight::time::parse_time;

#[test]
fn parses_a_plain_date() {
    let date = parse_date("2026-10-11").unwrap();
    assert_eq!(date, Date { year: 2026, month: 10, day: 11 });
}

#[test]
fn accepts_a_leap_day_only_in_a_leap_year() {
    assert!(parse_date("2024-02-29").is_some());
    assert!(parse_date("2023-02-29").is_none());
    assert!(parse_date("2000-02-29").is_some());
    assert!(parse_date("1900-02-29").is_none());
}

#[test]
fn rejects_dates_that_name_no_real_day() {
    for text in ["2026-13-01", "2026-00-10", "2026-04-31", "2026-01-00", "2026-1-1",
        "26-01-01", "2026/01/01", "2026-10-11 ", ""] {
        assert!(parse_date(text).is_none(), "text {:?}", text);
    }
}

#[test]
fn date_text_round_trips() {
    for text in ["0000-01-01", "2026-10-11", "9999-12-31", "2024-02-29"] {
        let date = parse_date(text).unwrap();
        assert_eq!(format_date(&date), text);
    }
}

#[test]
fn orders_dates_chronologically() {
    let earlier = Date { year: 2026, month: 10, day: 10 };
    let later = Date { year: 2026, month: 10, day: 11 };
    assert!(earlier.before(&later));
    assert!(!later.before(&earlier));
    assert!(!later.before(&later));
    assert!(Date { year: 2025, month: 12, day: 31 }.before(&Date { year: 2026, month: 1, day: 1 }));
}

#[test]
fn parses_a_plain_time() {
    let time = parse_time("06:30:00").unwrap();
    assert_eq!(time, Time { hour: 6, minute: 30, second: 0 });
    assert_eq!(parse_time("23:59:59").unwrap(), Time { hour: 23, minute: 59, second: 59 });
}

#[test]
fn rejects_times_that_name_no_real_moment() {
    for text in ["24:00:00", "06:60:00", "06:30:60", "6:30:00", "06:30", "06-30-00",
        "06:30:00.5", ""] {
        assert!(parse_time(text).is_none(), "text {:?}", text);
    }
}

#[test]
fn time_text_round_trips() {
    for text in ["00:00:00", "06:30:00", "18:30:00", "23:59:59"] {
        let time = parse_time(text).unwrap();
        assert_eq!(format_time(&time), text);
    }
}
