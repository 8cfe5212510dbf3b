use static_file_server::datetime::{
    datetime_to_system_time, format_datetime_rfc3339, http_date, is_leap_year, is_printable,
    month_to_num, parse_asctime, parse_http_date, parse_rfc1123, parse_rfc850,
};
use static_file_server::range::{parse_range_header, ByteRange, RangeError};

fn chars(s: &str) -> Vec<char> {
    s.chars().collect()
}

#[test]
fn http_date_is_imf_fixdate() {
    assert_eq!(http_date(0), "Thu, 01 Jan 1970 00:00:00 GMT");
    assert_eq!(http_date(784111777), "Sun, 06 Nov 1994 08:49:37 GMT");
    assert_eq!(http_date(951782400), "Tue, 29 Feb 2000 00:00:00 GMT");
}

#[test]
fn rfc3339_of_listing_times() {
    assert_eq!(format_datetime_rfc3339(0), "1970-01-01T00:00:00Z");
    assert_eq!(format_datetime_rfc3339(1700000000), "2023-11-14T22:13:20Z");
}

#[test]
fn the_three_http_date_formats() {
    assert_eq!(parse_http_date("Sun, 06 Nov 1994 08:49:37 GMT"), Ok(784111777));
    assert_eq!(parse_http_date("Sunday, 06-Nov-94 08:49:37 GMT"), Ok(784111777));
    assert_eq!(parse_http_date("Sun Nov  6 08:49:37 1994"), Ok(784111777));
    assert_eq!(parse_http_date("  Sun, 06 Nov 1994 08:49:37 GMT  "), Ok(784111777));
    assert_eq!(parse_http_date("yesterday"), Err(()));
    assert_eq!(parse_rfc1123(&chars("Sun, 06 Nov 1994 08:49:37 GMT")), Some(784111777));
    assert_eq!(parse_rfc850(&chars("Sunday, 06-Nov-94 08:49:37 GMT")), Some(784111777));
    assert_eq!(parse_asctime(&chars("Sun Nov  6 08:49:37 1994")), Some(784111777));
}

#[test]
fn two_digit_years() {
    assert_eq!(parse_rfc850(&chars("Thursday, 01-Jan-70 00:00:00 GMT")), Some(0));
    assert_eq!(
        parse_rfc850(&chars("Saturday, 01-Jan-00 00:00:00 GMT")),
        Some(946684800)
    );
}

#[test]
fn written_dates_read_back() {
    for secs in [0u64, 59, 86399, 86400, 784111777, 951782400, 1700000000, 4102444800] {
        assert_eq!(parse_http_date(&http_date(secs)), Ok(secs));
    }
}

#[test]
fn months_and_leap_years() {
    assert_eq!(month_to_num(&chars("Jan")), Some(1));
    assert_eq!(month_to_num(&chars("DEC")), Some(12));
    assert_eq!(month_to_num(&chars("sept")), None);
    assert!(is_leap_year(2000));
    assert!(!is_leap_year(1900));
    assert!(is_leap_year(2024));
    assert!(!is_leap_year(2023));
}

#[test]
fn civil_time_to_seconds() {
    assert_eq!(datetime_to_system_time(1994, 11, 6, 8, 49, 37), 784111777);
    assert_eq!(datetime_to_system_time(1970, 1, 1, 0, 0, 0), 0);
    assert_eq!(datetime_to_system_time(1960, 1, 1, 0, 0, 0), 0);
}

#[test]
fn printable_times() {
    assert!(is_printable(0));
    assert!(is_printable(4102444800));
    assert!(!is_printable(u64::MAX));
}

#[test]
fn single_and_open_ranges() {
    assert_eq!(
        parse_range_header("bytes=0-99", 1000),
        Ok(vec![ByteRange { start: 0, end: 99 }])
    );
    assert_eq!(
        parse_range_header("bytes=900-", 1000),
        Ok(vec![ByteRange { start: 900, end: 999 }])
    );
    assert_eq!(
        parse_range_header("bytes=-100", 1000),
        Ok(vec![ByteRange { start: 900, end: 999 }])
    );
    assert_eq!(
        parse_range_header("bytes=500-5000", 1000),
        Ok(vec![ByteRange { start: 500, end: 999 }])
    );
}

#[test]
fn several_ranges() {
    assert_eq!(
        parse_range_header("bytes=0-0, 10-19", 100),
        Ok(vec![ByteRange { start: 0, end: 0 }, ByteRange { start: 10, end: 19 }])
    );
}

#[test]
fn malformed_and_unsatisfiable_ranges() {
    assert_eq!(parse_range_header("items=0-1", 100), Err(RangeError::Invalid));
    assert_eq!(parse_range_header("bytes=", 100), Err(RangeError::Invalid));
    assert_eq!(parse_range_header("bytes=a-b", 100), Err(RangeError::Invalid));
    assert_eq!(parse_range_header("bytes=0-1,", 100), Err(RangeError::Invalid));
    assert_eq!(parse_range_header("bytes=100-", 100), Err(RangeError::Unsatisfiable));
    assert_eq!(parse_range_header("bytes=5-4", 100), Err(RangeError::Unsatisfiable));
    assert_eq!(parse_range_header("bytes=-0", 100), Err(RangeError::Unsatisfiable));
    assert_eq!(parse_range_header("bytes=-101", 100), Err(RangeError::Unsatisfiable));
}

#[test]
fn range_length() {
    assert_eq!(ByteRange { start: 10, end: 19 }.length(), 10);
    assert_eq!(ByteRange { start: 5, end: 5 }.length(), 1);
}
