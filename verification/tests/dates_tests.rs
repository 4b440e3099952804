use tagesschau::{DateRange, Error, Month, TDate};

fn date(year: i32, month: Month, day: u8) -> TDate {
    TDate::from_calendar_date(year, month, day).unwrap()
}

#[test]
fn valid_dates_construct() {
    assert!(TDate::from_calendar_date(2024, Month::February, 29).is_ok());
    assert!(TDate::from_calendar_date(2023, Month::February, 28).is_ok());
    assert!(TDate::from_calendar_date(0, Month::January, 1).is_ok());
    assert!(TDate::from_calendar_date(9999, Month::December, 31).is_ok());
    assert!(TDate::from_calendar_date(2000, Month::February, 29).is_ok());
}

#[test]
fn invalid_dates_fail() {
    assert!(matches!(
        TDate::from_calendar_date(2023, Month::February, 29),
        Err(Error::InvalidDate)
    ));
    assert!(matches!(
        TDate::from_calendar_date(2024, Month::April, 31),
        Err(Error::InvalidDate)
    ));
    assert!(matches!(
        TDate::from_calendar_date(2024, Month::June, 0),
        Err(Error::InvalidDate)
    ));
    assert!(matches!(
        TDate::from_calendar_date(-1, Month::June, 10),
        Err(Error::InvalidDate)
    ));
    assert!(matches!(
        TDate::from_calendar_date(10000, Month::June, 10),
        Err(Error::InvalidDate)
    ));
    // 1900 was no leap year: divisible by 100 but not by 400.
    assert!(matches!(
        TDate::from_calendar_date(1900, Month::February, 29),
        Err(Error::InvalidDate)
    ));
}

#[test]
fn wire_format_round_trip() {
    let samples = [
        date(2024, Month::February, 29),
        date(2023, Month::December, 31),
        date(0, Month::January, 1),
        date(9999, Month::December, 31),
        date(805, Month::June, 7),
    ];
    for d in samples {
        let s = d.format();
        assert_eq!(TDate::parse_wire(&s), Some(d));
    }
}

#[test]
fn wire_format_is_padded() {
    assert_eq!(date(2024, Month::January, 5).format(), "20240105");
    assert_eq!(date(805, Month::June, 7).format(), "08050607");
    assert_eq!(date(0, Month::December, 31).format(), "00001231");
}

#[test]
fn parse_wire_rejects_bad_text() {
    assert_eq!(TDate::parse_wire("2024010"), None);
    assert_eq!(TDate::parse_wire("202401055"), None);
    assert_eq!(TDate::parse_wire("2024O105"), None);
    assert_eq!(TDate::parse_wire("20241301"), None);
    assert_eq!(TDate::parse_wire("20240230"), None);
    assert_eq!(TDate::parse_wire(""), None);
}

#[test]
fn range_counts_and_order() {
    let start = date(2023, Month::December, 30);
    let end = date(2024, Month::January, 2);
    let r = DateRange::new(start, end).unwrap();
    assert_eq!(r.dates.len(), 4);
    assert_eq!(r.dates[0], start);
    assert_eq!(r.dates[1], date(2023, Month::December, 31));
    assert_eq!(r.dates[2], date(2024, Month::January, 1));
    assert_eq!(r.dates[3], end);
}

#[test]
fn range_single_day() {
    let d = date(2024, Month::July, 15);
    let r = DateRange::new(d, d).unwrap();
    assert_eq!(r.dates.len(), 1);
    assert_eq!(r.dates[0], d);
}

#[test]
fn range_empty_when_end_before_start() {
    let start = date(2024, Month::March, 5);
    let end = date(2024, Month::March, 4);
    let r = DateRange::new(start, end).unwrap();
    assert_eq!(r.dates.len(), 0);
}

#[test]
fn range_rejects_invalid_endpoint() {
    let good = date(2024, Month::March, 5);
    let bad = TDate {
        day: 31,
        month: Month::February,
        year: 2024,
    };
    assert!(matches!(DateRange::new(good, bad), Err(Error::InvalidDate)));
    assert!(matches!(DateRange::new(bad, good), Err(Error::InvalidDate)));
}

#[test]
fn range_crosses_leap_day() {
    let r = DateRange::new(date(2024, Month::February, 28), date(2024, Month::March, 1)).unwrap();
    assert_eq!(r.dates.len(), 3);
    assert!(r.dates.contains(&date(2024, Month::February, 29)));
    assert_eq!(r.dates[1], date(2024, Month::February, 29));
}

#[test]
fn non_leap_year_has_no_leap_day() {
    let r = DateRange::new(date(2023, Month::February, 28), date(2023, Month::March, 1)).unwrap();
    assert_eq!(r.dates.len(), 2);
    assert_eq!(r.dates[0], date(2023, Month::February, 28));
    assert_eq!(r.dates[1], date(2023, Month::March, 1));
}

#[test]
fn from_dates_keeps_first_occurrence() {
    let a = date(2024, Month::May, 1);
    let b = date(2024, Month::May, 2);
    let r = DateRange::from_dates(vec![b, a, b, a, b]);
    assert_eq!(r.dates, vec![b, a]);
}

#[test]
fn month_codes() {
    assert_eq!(Month::January.code(), 1);
    assert_eq!(Month::December.code(), 12);
    assert_eq!(Month::from_code(3), Some(Month::March));
    assert_eq!(Month::from_code(0), None);
    assert_eq!(Month::from_code(13), None);
}

#[test]
fn current_date_is_valid_or_clock_error() {
    // Whether the local offset can be determined depends on the machine and
    // on the test harness; both outcomes are legitimate, but a returned date
    // must be a real one.
    match tagesschau::current_date() {
        Ok(d) => {
            assert!(TDate::from_calendar_date(d.year, d.month, d.day).is_ok());
            assert!(d.year >= 2024);
        }
        Err(e) => assert!(matches!(e, Error::ClockError)),
    }
}

#[test]
fn date_from_parts_converts_clock_triples() {
    assert_eq!(
        tagesschau::dates::date_from_parts(2024, 2, 29),
        Ok(date(2024, Month::February, 29))
    );
    assert_eq!(
        tagesschau::dates::date_from_parts(2026, 10, 11),
        Ok(date(2026, Month::October, 11))
    );
    assert_eq!(
        tagesschau::dates::date_from_parts(2023, 2, 29),
        Err(Error::ClockError)
    );
    assert_eq!(
        tagesschau::dates::date_from_parts(-5, 6, 1),
        Err(Error::ClockError)
    );
    assert_eq!(
        tagesschau::dates::date_from_parts(2024, 13, 1),
        Err(Error::ClockError)
    );
}
