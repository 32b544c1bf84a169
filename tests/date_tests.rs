use rssscribe::date::{normalize, InvalidDate};
use rssscribe::text::trim_field;

#[test]
fn normalize_valid_date_is_midnight_utc() {
    assert_eq!(normalize("20230115"), Ok("Sun, 15 Jan 2023 00:00:00 +0000".to_string()));
}

#[test]
fn normalize_day_below_ten_is_zero_padded() {
    assert_eq!(normalize("20230105"), Ok("Thu, 05 Jan 2023 00:00:00 +0000".to_string()));
}

#[test]
fn normalize_example_date() {
    assert_eq!(normalize("20060102"), Ok("Mon, 02 Jan 2006 00:00:00 +0000".to_string()));
}

#[test]
fn normalize_year_below_thousand() {
    assert_eq!(normalize("09990704"), Ok("Thu, 04 Jul 0999 00:00:00 +0000".to_string()));
}

#[test]
fn normalize_leap_day() {
    assert_eq!(normalize("20240229"), Ok("Thu, 29 Feb 2024 00:00:00 +0000".to_string()));
}

#[test]
fn normalize_year_zero() {
    assert_eq!(normalize("00000101"), Ok("Sat, 01 Jan 0000 00:00:00 +0000".to_string()));
}

#[test]
fn normalize_last_day_of_year() {
    assert_eq!(normalize("99991231"), Ok("Fri, 31 Dec 9999 00:00:00 +0000".to_string()));
}

#[test]
fn normalize_ignores_quotes_and_whitespace() {
    let plain = normalize("20230115");
    assert_eq!(normalize("\"20230115\""), plain);
    assert_eq!(normalize("  \"20230115\"\n"), plain);
    assert_eq!(normalize("\" 20230115 \""), plain);
}

#[test]
fn normalize_wrong_length() {
    assert_eq!(normalize("2023011"), Err(InvalidDate::Length));
    assert_eq!(normalize("202301150"), Err(InvalidDate::Length));
    assert_eq!(normalize(""), Err(InvalidDate::Length));
    assert_eq!(normalize("\"\""), Err(InvalidDate::Length));
}

#[test]
fn normalize_non_digits() {
    assert_eq!(normalize("2023a115"), Err(InvalidDate::Digits));
    assert_eq!(normalize("+2023011"), Err(InvalidDate::Digits));
    assert_eq!(normalize("2023-1-5"), Err(InvalidDate::Digits));
    assert_eq!(normalize("2023011é"), Err(InvalidDate::Digits));
}

#[test]
fn normalize_impossible_dates() {
    assert_eq!(normalize("20230230"), Err(InvalidDate::Calendar));
    assert_eq!(normalize("20230229"), Err(InvalidDate::Calendar));
    assert_eq!(normalize("21000229"), Err(InvalidDate::Calendar));
    assert_eq!(normalize("20231301"), Err(InvalidDate::Calendar));
    assert_eq!(normalize("20230100"), Err(InvalidDate::Calendar));
    assert_eq!(normalize("20230431"), Err(InvalidDate::Calendar));
}

#[test]
fn trim_field_strips_quotes_and_whitespace() {
    assert_eq!(trim_field(" \"a b\" "), "a b");
    assert_eq!(trim_field("\"\u{a0}x\u{3000}\""), "x");
    assert_eq!(trim_field("plain"), "plain");
    assert_eq!(trim_field("\"  \""), "");
}
