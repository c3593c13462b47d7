use utc::calendar::{days_in_month, days_in_year, ly, Month, Weekday};
use utc::{DateError, Utc};

#[test]
fn round_trip_of_fields() {
    let m = Utc::from_ymdhms(2024, 1, 5, 5, 34, 12, 324_000_000).unwrap();
    let back = Utc::from_ymdhms(
        m.year(), m.month(), m.day(), m.hour(), m.minute(), m.second(), m.nano(),
    )
    .unwrap();
    assert_eq!(m, back);
}

#[test]
fn round_trip_of_seconds() {
    let m = Utc::from_seconds_since_epoch(2_147_483_648, 7);
    assert_eq!("2038-01-19T03:14:08", m.as_rfc3339());
    let back = Utc::from_ymdhms(
        m.year(), m.month(), m.day(), m.hour(), m.minute(), m.second(), m.nano(),
    )
    .unwrap();
    assert_eq!(m, back);
}

#[test]
fn round_trip_of_now() {
    let m = Utc::now().unwrap();
    assert!(m.year() >= 2024);
    let back = Utc::from_ymdhms(
        m.year(), m.month(), m.day(), m.hour(), m.minute(), m.second(), m.nano(),
    )
    .unwrap();
    assert_eq!(m, back);
}

#[test]
fn epoch_anchor_names() {
    assert_eq!("Thursday", Utc::epoch().day_of_week());
    assert_eq!("Friday", Utc::from_ymd(1970, 1, 2).unwrap().day_of_week());
    assert_eq!("Wednesday", Utc::from_ymd(1970, 1, 7).unwrap().day_of_week());
    assert_eq!("Sunday", Utc::from_ymd(1970, 2, 1).unwrap().day_of_week());
    assert_eq!("Friday", Utc::from_ymd(1971, 1, 1).unwrap().day_of_week());
    assert_eq!(Weekday::Friday, Utc::from_ymd(2024, 1, 5).unwrap().weekday());
}

#[test]
fn epoch_fields() {
    let e = Utc::epoch();
    assert_eq!(e, Utc::from_seconds_since_epoch(0, 0));
    assert_eq!("1970-01-01T00:00:00.000000", e.as_rfc3339_nano());
    assert_eq!("January", e.month_of_year());
    assert_eq!(0, e.second_with_nano());
}

#[test]
fn leap_day_scenarios() {
    assert_eq!("2000-02-29T00:00:00", Utc::from_ymd(2000, 2, 29).unwrap().as_rfc3339());
    assert_eq!("2001-03-01T00:00:00", Utc::from_ymd(2001, 2, 29).unwrap().as_rfc3339());
    assert_eq!("2100-03-01T00:00:00", Utc::from_ymd(2100, 2, 29).unwrap().as_rfc3339());
}

#[test]
fn underflow_scenarios() {
    assert_eq!("2019-12-01T00:00:00", Utc::from_ymd(2020, 0, 1).unwrap().as_rfc3339());
    assert_eq!("2019-12-31T00:00:00", Utc::from_ymd(2020, 1, 0).unwrap().as_rfc3339());
    assert_eq!("2019-11-30T00:00:00", Utc::from_ymd(2020, 0, 0).unwrap().as_rfc3339());
    assert_eq!("2020-02-29T00:00:00", Utc::from_ymd(2020, 3, 0).unwrap().as_rfc3339());
}

#[test]
fn overflow_scenarios() {
    assert_eq!("2021-01-01T00:00:00", Utc::from_ymd(2020, 13, 1).unwrap().as_rfc3339());
    assert_eq!("2021-01-01T00:00:00", Utc::from_ymd(2020, 12, 32).unwrap().as_rfc3339());
    assert_eq!("2021-02-01T00:00:00", Utc::from_ymd(2020, 13, 32).unwrap().as_rfc3339());
    assert_eq!("2022-02-01T00:00:00", Utc::from_ymd(2020, 14, 1).unwrap().as_rfc3339());
    assert_eq!("2020-12-31T00:00:00", Utc::from_ymd(2020, 13, 0).unwrap().as_rfc3339());
    assert_eq!("2021-03-01T00:00:00", Utc::from_ymd(2020, 1, 426).unwrap().as_rfc3339());
}

#[test]
fn carry_adds_one_more_than_the_remainder() {
    let dt = Utc::from_ymdhms(2017, 12, 10, 12, 0, 61, 0).unwrap();
    assert_eq!("2017-12-10T12:02:01", dt.as_rfc3339());
    let dt = Utc::from_ymdhms(2017, 12, 10, 12, 61, 0, 0).unwrap();
    assert_eq!("2017-12-10T14:01:00", dt.as_rfc3339());
    let dt = Utc::from_ymdhms(2017, 12, 10, 25, 0, 0, 0).unwrap();
    assert_eq!("2017-12-12T01:00:00", dt.as_rfc3339());
}

#[test]
fn nanoseconds_carry_into_seconds() {
    let dt = Utc::from_ymdhms(2020, 1, 1, 0, 0, 5, 1_500_000_000).unwrap();
    assert_eq!(6, dt.second());
    assert_eq!(500_000_000, dt.nano());
    assert_eq!("2020-01-01T00:00:06.5", dt.as_rfc3339_with_nano(1));
}

#[test]
fn pre_epoch_rejections() {
    assert_eq!(Err(DateError::BeforeEpoch), Utc::from_ymdhms(1969, 12, 31, 11, 59, 59, 990_000_000));
    assert_eq!(Err(DateError::BeforeEpoch), Utc::from_ymd(1970, 0, 0));
    assert_eq!(Err(DateError::BeforeEpoch), Utc::from_ymd(0, 5, 5));
    assert_eq!("1970-01-01T00:00:00", Utc::from_ymd(1970, 1, 1).unwrap().as_rfc3339());
}

#[test]
fn fraction_formatting() {
    let dt = Utc::from_ymdhms(2024, 1, 5, 5, 34, 12, 324_000_000).unwrap();
    assert_eq!("2024-01-05T05:34:12.32", dt.as_rfc3339_with_nano(2));
    assert_eq!(12_324_000_000, dt.second_with_nano());
    let dt = Utc::from_ymdhms(2024, 1, 9, 12, 59, 9, 800_000_000).unwrap();
    assert_eq!("2024-01-09T12:59:09.8", dt.as_rfc3339_with_nano(1));
    let dt = Utc::from_ymdhms(2024, 1, 9, 12, 5, 57, 200_000_000).unwrap();
    assert_eq!("2024-01-09T12:05:57.200000", dt.as_rfc3339_nano());
}

#[test]
fn fraction_rounding() {
    let at = |nano: u32, precision: usize| {
        Utc::from_seconds_since_epoch(0, nano).as_rfc3339_with_nano(precision)
    };
    assert_eq!("1970-01-01T00:00:00.00", at(999_999_999, 2));
    assert_eq!("1970-01-01T00:00:00.12", at(125_000_000, 2));
    assert_eq!("1970-01-01T00:00:00.14", at(135_000_000, 2));
    assert_eq!("1970-01-01T00:00:00.7", at(650_000_001, 1));
    assert_eq!("1970-01-01T00:00:00.000000007", at(7, 9));
    assert_eq!("1970-01-01T00:00:00.123456789000", at(123_456_789, 12));
}

#[test]
fn http_date_scenarios() {
    let dt = Utc::from_ymdhms(2024, 1, 5, 11, 44, 58, 0).unwrap();
    assert_eq!("Fri, 05 Jan 2024 11:44:58 GMT", dt.as_rfc7231());
    let dt = Utc::from_ymdhms(2024, 1, 9, 12, 5, 57, 0).unwrap();
    assert_eq!("Tue, 09 Jan 2024 12:05:57 GMT", dt.as_rfc7231());
}

#[test]
fn wide_years_keep_all_digits() {
    assert_eq!("10000-01-01T00:00:00", Utc::from_ymd(10000, 1, 1).unwrap().as_rfc3339());
}

#[test]
fn seconds_since_epoch_decomposed() {
    let dt = Utc::from_seconds_since_epoch(1_704_433_498, 250_000_000);
    assert_eq!("2024-01-05T05:44:58.25", dt.as_rfc3339_with_nano(2));
    assert_eq!("Friday", dt.day_of_week());
    assert_eq!(dt, Utc::from_ymdhms(2024, 1, 5, 5, 44, 58, 250_000_000).unwrap());
    let dt = Utc::from_seconds_since_epoch(365 * 86_400, 0);
    assert_eq!("1971-01-01T00:00:00", dt.as_rfc3339());
}

#[test]
fn day_enumeration_is_one_day_at_a_time() {
    let mut previous = Utc::from_ymd(1970, 1, 1).unwrap();
    for n in 2..2000u64 {
        let curr = Utc::from_ymd(1970, 1, n).unwrap();
        assert_eq!(curr, Utc::from_seconds_since_epoch((n - 1) * 86_400, 0));
        assert!(previous < curr);
        previous = curr;
    }
    assert_eq!("1975-06-22T00:00:00", previous.as_rfc3339());
}

#[test]
fn ordering_by_fields() {
    let a = Utc::from_ymdhms(2020, 1, 1, 0, 0, 0, 1).unwrap();
    let b = Utc::from_ymdhms(2020, 1, 1, 0, 0, 0, 2).unwrap();
    let c = Utc::from_ymd(2019, 12, 31).unwrap();
    assert!(a < b);
    assert!(c < a);
    assert_eq!(Some(std::cmp::Ordering::Equal), a.partial_cmp(&a));
}

#[test]
fn calendar_tables() {
    assert_eq!(1, ly(2000));
    assert_eq!(0, ly(1900));
    assert_eq!(1, ly(2024));
    assert_eq!(0, ly(2023));
    assert_eq!(29, days_in_month(2000, 2));
    assert_eq!(28, days_in_month(1900, 2));
    assert_eq!(30, days_in_month(2023, 11));
    assert_eq!(366, days_in_year(2024));
    assert_eq!(365, days_in_year(2100));
}

#[test]
fn names_and_abbreviations() {
    assert_eq!("February", Month::from_number(2).name());
    assert_eq!("Sep", Month::from_number(9).abbreviation());
    assert_eq!(12, Month::December.number());
    assert_eq!("Wed", Weekday::Wednesday.abbreviation());
    assert_eq!("Saturday", Weekday::from_days_since_epoch(2).name());
    assert_eq!("February", Utc::from_ymd(2024, 2, 1).unwrap().month_of_year());
}

#[test]
fn supported_fields() {
    assert!(Utc::fields_supported(2020, 14, 1, 0, 0, 0));
    assert!(Utc::fields_supported(2020, 13, 0, 0, 0, 0));
    assert!(!Utc::fields_supported(2020, 24, 1, 0, 0, 0));
    assert!(!Utc::fields_supported(2020, 14, 0, 0, 0, 0));
    assert!(!Utc::fields_supported(1 << 32, 1, 1, 0, 0, 0));
    assert!(Utc::fields_supported(0xFFFF_FFFF, 1, 1, 0xFFFF_FFFF, 0xFFFF_FFFF, 0xFFFF_FFFF));
}

#[test]
fn largest_supported_fields() {
    let dt = Utc::from_ymdhms(100_000, 12, 0xFFFF, 0xFFFF_FFFF, 0xFFFF_FFFF, 0xFFFF_FFFF, u32::MAX)
        .unwrap();
    assert!(dt.year() > 100_000);
    assert_eq!(dt, Utc::from_ymdhms(
        dt.year(), dt.month(), dt.day(), dt.hour(), dt.minute(), dt.second(), dt.nano(),
    )
    .unwrap());
}
