use sitegen::date::{date_to_rfc822, format_date, parse_date, Date};

#[test]
fn parses_a_plain_date() {
    let d = parse_date("2023-01-05").unwrap();
    assert_eq!(d, Date { year: 2023, month: 1, day: 5 });
}

#[test]
fn parses_a_leap_day() {
    let d = parse_date("2024-02-29").unwrap();
    assert_eq!(d, Date { year: 2024, month: 2, day: 29 });
}

#[test]
fn rejects_a_false_leap_day() {
    assert!(parse_date("2023-02-29").is_none());
}

#[test]
fn rejects_century_non_leap_year() {
    assert!(parse_date("1900-02-29").is_none());
    assert!(parse_date("2000-02-29").is_some());
}

#[test]
fn rejects_malformed_shapes() {
    assert!(parse_date("2023-1-5").is_none());
    assert!(parse_date("23-01-05").is_none());
    assert!(parse_date("2023/01/05").is_none());
    assert!(parse_date("2023-01-05 ").is_none());
    assert!(parse_date("").is_none());
}

#[test]
fn rejects_out_of_range_fields() {
    assert!(parse_date("2023-13-01").is_none());
    assert!(parse_date("2023-00-10").is_none());
    assert!(parse_date("2023-04-31").is_none());
    assert!(parse_date("2023-04-00").is_none());
    assert!(parse_date("0000-04-10").is_none());
}

#[test]
fn parses_the_calendar_bounds() {
    assert!(parse_date("0001-01-01").is_some());
    assert!(parse_date("9999-12-31").is_some());
    assert!(parse_date("2023-12-32").is_none());
}

#[test]
fn formats_dates_with_padding() {
    assert_eq!(format_date(&Date { year: 2023, month: 1, day: 5 }), "2023-01-05");
    assert_eq!(format_date(&Date { year: 987, month: 12, day: 3 }), "0987-12-03");
}

#[test]
fn format_then_parse_gives_the_date_back() {
    let d = Date { year: 2024, month: 2, day: 29 };
    assert_eq!(parse_date(&format_date(&d)).unwrap(), d);
}

#[test]
fn formats_rfc822_with_weekday() {
    let d = Date { year: 2023, month: 1, day: 5 };
    assert_eq!(date_to_rfc822(&d), "Thu, 05 Jan 2023 00:00:00 +0000");
}

#[test]
fn formats_rfc822_leap_day() {
    let d = Date { year: 2024, month: 2, day: 29 };
    assert_eq!(date_to_rfc822(&d), "Thu, 29 Feb 2024 00:00:00 +0000");
}

#[test]
fn formats_rfc822_century_boundary() {
    let d = Date { year: 2000, month: 1, day: 1 };
    assert_eq!(date_to_rfc822(&d), "Sat, 01 Jan 2000 00:00:00 +0000");
}

#[test]
fn formats_rfc822_pads_day_and_year() {
    let d = Date { year: 987, month: 12, day: 3 };
    let s = date_to_rfc822(&d);
    assert!(s.ends_with("03 Dec 0987 00:00:00 +0000"), "got {:?}", s);
}
