use budget_rs::dates::Date;

#[test]
fn calendar_rules() {
    assert!(Date::new(2024, 2, 29).is_some());
    assert!(Date::new(2023, 2, 29).is_none());
    assert!(Date::new(2000, 2, 29).is_some());
    assert!(Date::new(1900, 2, 29).is_none());
    assert!(Date::new(-4, 2, 29).is_some());
    assert!(Date::new(-100, 2, 29).is_none());
    assert!(Date::new(2026, 4, 31).is_none());
    assert!(Date::new(2026, 4, 30).is_some());
    assert!(Date::new(2026, 0, 1).is_none());
    assert!(Date::new(2026, 13, 1).is_none());
    assert!(Date::new(2026, 1, 0).is_none());
    assert!(Date::new(262142, 12, 31).is_some());
    assert!(Date::new(262143, 1, 1).is_none());
    assert!(Date::new(-262143, 1, 1).is_some());
    assert!(Date::new(-262144, 1, 1).is_none());
}

#[test]
fn fields_read_back() {
    let d = Date::new(2026, 4, 12).unwrap();
    assert_eq!((d.year(), d.month(), d.day()), (2026, 4, 12));
}

#[test]
fn month_and_date_text() {
    let d = Date::new(2026, 4, 1).unwrap();
    assert_eq!(d.year_month_text(), "2026-04");
    assert_eq!(d.to_text(), "2026-04-01");
    let d = Date::new(5, 11, 9).unwrap();
    assert_eq!(d.year_month_text(), "0005-11");
    assert_eq!(d.to_text(), "0005-11-09");
    let d = Date::new(-5, 3, 4).unwrap();
    assert_eq!(d.to_text(), "-0005-03-04");
    let d = Date::new(12345, 6, 7).unwrap();
    assert_eq!(d.to_text(), "+12345-06-07");
    assert_eq!(d.year_month_text(), "+12345-06");
}

#[test]
fn parsing_dates() {
    let d = Date::parse("2026-04-12").unwrap();
    assert_eq!((d.year(), d.month(), d.day()), (2026, 4, 12));
    assert!(Date::parse("2026/04/12").is_err());
    assert!(Date::parse("2026-02-30").is_err());
    assert!(Date::parse("2026-13-01").is_err());
    assert!(Date::parse("").is_err());
    assert!(Date::parse("April").is_err());
}
