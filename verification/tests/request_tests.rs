use tagesschau::{Month, Region, Ressort, TDate, TRequestBuilder, Timeframe};

fn date(year: i32, month: Month, day: u8) -> TDate {
    TDate::from_calendar_date(year, month, day).unwrap()
}

#[test]
fn url_without_regions_and_ressort_has_only_the_date() {
    let b = TRequestBuilder::new();
    let url = b.prepare_url(date(2024, Month::January, 15)).unwrap();
    assert_eq!(url, "https://www.tagesschau.de/api2u/news?date=20240115");
}

#[test]
fn url_with_regions_and_ressort_has_all_three_parameters() {
    let mut b = TRequestBuilder::new();
    b.regions(vec![Region::Berlin, Region::Bayern]).ressort(Ressort::Sport);
    let url = b.prepare_url(date(2024, Month::January, 15)).unwrap();
    assert_eq!(
        url,
        "https://www.tagesschau.de/api2u/news?date=20240115&regions=3%2C2%2C&ressort=sport"
    );
}

#[test]
fn url_with_regions_alone() {
    let mut b = TRequestBuilder::new();
    b.regions(vec![Region::Thueringen]);
    let url = b.prepare_url(date(2024, Month::January, 15)).unwrap();
    assert_eq!(
        url,
        "https://www.tagesschau.de/api2u/news?date=20240115&regions=16%2C"
    );
}

#[test]
fn url_with_ressort_alone() {
    let mut b = TRequestBuilder::new();
    b.ressort(Ressort::Wissen);
    let url = b.prepare_url(date(2024, Month::January, 15)).unwrap();
    assert_eq!(
        url,
        "https://www.tagesschau.de/api2u/news?date=20240115&ressort=wissen"
    );
}

#[test]
fn regions_setter_deduplicates() {
    let mut b = TRequestBuilder::new();
    b.regions(vec![Region::Berlin, Region::Bayern, Region::Berlin]);
    assert_eq!(b.regions, vec![Region::Berlin, Region::Bayern]);
}

#[test]
fn setters_chain() {
    let mut b = TRequestBuilder::new();
    b.ressort(Ressort::Inland)
        .regions(vec![Region::Hamburg])
        .timeframe(Timeframe::Date(date(2024, Month::June, 1)));
    assert_eq!(b.ressort, Ressort::Inland);
    assert_eq!(b.regions, vec![Region::Hamburg]);
    assert!(matches!(b.timeframe, Timeframe::Date(_)));
}

#[test]
fn region_codes_follow_enumeration_order() {
    assert_eq!(Region::BadenWuerttemberg.code(), 1);
    assert_eq!(Region::Bayern.code(), 2);
    assert_eq!(Region::Berlin.code(), 3);
    assert_eq!(Region::Thueringen.code(), 16);
}

#[test]
fn ressort_encodings() {
    assert_eq!(Ressort::Unspecified.as_str(), "");
    assert_eq!(Ressort::Inland.as_str(), "inland");
    assert_eq!(Ressort::Ausland.as_str(), "ausland");
    assert_eq!(Ressort::Wirtschaft.as_str(), "wirtschaft");
    assert_eq!(Ressort::Sport.as_str(), "sport");
    assert_eq!(Ressort::Video.as_str(), "video");
    assert_eq!(Ressort::Investigativ.as_str(), "investigativ");
    assert_eq!(Ressort::Wissen.as_str(), "wissen");
}

#[test]
fn resolve_dates_of_each_timeframe() {
    let today = date(2024, Month::August, 9);
    let single = date(2024, Month::March, 3);

    let mut b = TRequestBuilder::new();
    assert_eq!(b.resolve_dates(today), vec![today]);

    b.timeframe(Timeframe::Date(single));
    assert_eq!(b.resolve_dates(today), vec![single]);

    let range =
        tagesschau::DateRange::new(date(2024, Month::March, 3), date(2024, Month::March, 5))
            .unwrap();
    b.timeframe(Timeframe::DateRange(range));
    let resolved = b.resolve_dates(today);
    assert_eq!(
        resolved,
        vec![
            date(2024, Month::March, 3),
            date(2024, Month::March, 4),
            date(2024, Month::March, 5)
        ]
    );
}

#[test]
fn prepare_urls_one_per_date() {
    let mut b = TRequestBuilder::new();
    let range =
        tagesschau::DateRange::new(date(2024, Month::March, 3), date(2024, Month::March, 4))
            .unwrap();
    b.timeframe(Timeframe::DateRange(range));
    let urls = b.prepare_urls(date(2024, Month::August, 9)).unwrap();
    assert_eq!(
        urls,
        vec![
            "https://www.tagesschau.de/api2u/news?date=20240303",
            "https://www.tagesschau.de/api2u/news?date=20240304"
        ]
    );
}

#[test]
fn unparsable_base_is_a_url_construction_error() {
    let b = TRequestBuilder::new();
    let r = b.prepare_url_with_base("not a url at all", date(2024, Month::January, 15));
    assert!(matches!(r, Err(tagesschau::Error::UrlConstructionError)));
}

#[test]
fn mock_base_carries_the_same_query() {
    let mut b = TRequestBuilder::new();
    b.ressort(Ressort::Sport);
    let url = b
        .prepare_url_with_base("http://localhost:8080/news", date(2024, Month::January, 15))
        .unwrap();
    assert_eq!(url, "http://localhost:8080/news?date=20240115&ressort=sport");
}

#[test]
fn hand_built_range_with_duplicates_resolves_each_date_once() {
    let d1 = date(2024, Month::March, 3);
    let d2 = date(2024, Month::March, 4);
    let mut b = TRequestBuilder::new();
    b.timeframe(Timeframe::DateRange(tagesschau::DateRange {
        dates: vec![d1, d2, d1],
    }));
    assert_eq!(b.resolve_dates(date(2024, Month::August, 9)), vec![d1, d2]);
    let urls = b.prepare_urls(date(2024, Month::August, 9)).unwrap();
    assert_eq!(urls.len(), 2);
}
