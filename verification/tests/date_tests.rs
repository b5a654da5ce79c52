use vibereport::date::Date;
use vibereport::date::date_le;
use vibereport::date::format_date;
use vibereport::date::generate_date_range;
use vibereport::date::get_current_quarter;
use vibereport::date::next_day;
use vibereport::date::parse_date;
use vibereport::date::quarter_label;
use vibereport::date::today_utc_string;

#[test]
fn parses_valid_dates() {
    assert_eq!(parse_date("2025-01-01"), Some(Date { year: 2025, month: 1, day: 1 }));
    assert_eq!(parse_date("2024-02-29"), Some(Date { year: 2024, month: 2, day: 29 }));
    assert_eq!(parse_date("1999-12-31"), Some(Date { year: 1999, month: 12, day: 31 }));
}

#[test]
fn rejects_invalid_dates() {
    assert_eq!(parse_date("2023-02-29"), None);
    assert_eq!(parse_date("2025-13-01"), None);
    assert_eq!(parse_date("2025-00-10"), None);
    assert_eq!(parse_date("2025-04-31"), None);
    assert_eq!(parse_date("2025-1-1"), None);
    assert_eq!(parse_date("not-a-date"), None);
}

#[test]
fn formats_back_to_the_same_string() {
    let d = parse_date("2025-07-09").unwrap();
    assert_eq!(format_date(d), "2025-07-09");
    let d2 = parse_date("0001-01-01").unwrap();
    assert_eq!(format_date(d2), "0001-01-01");
}

#[test]
fn range_is_contiguous_and_inclusive() {
    let r = generate_date_range("2025-01-01", "2025-01-03").unwrap();
    assert_eq!(r, vec!["2025-01-01", "2025-01-02", "2025-01-03"]);
}

#[test]
fn range_of_equal_endpoints_is_single() {
    let r = generate_date_range("2025-06-15", "2025-06-15").unwrap();
    assert_eq!(r, vec!["2025-06-15"]);
}

#[test]
fn range_fails_when_start_after_end() {
    assert_eq!(generate_date_range("2025-01-02", "2025-01-01"), None);
}

#[test]
fn range_fails_on_unparsable_dates() {
    assert_eq!(generate_date_range("2025-02-30", "2025-03-01"), None);
    assert_eq!(generate_date_range("garbage", "2025-03-01"), None);
}

#[test]
fn range_crosses_month_and_year_boundaries() {
    let r = generate_date_range("2024-12-30", "2025-01-02").unwrap();
    assert_eq!(r, vec!["2024-12-30", "2024-12-31", "2025-01-01", "2025-01-02"]);
}

#[test]
fn range_handles_leap_february() {
    let r = generate_date_range("2024-02-28", "2024-03-01").unwrap();
    assert_eq!(r, vec!["2024-02-28", "2024-02-29", "2024-03-01"]);
    let r2 = generate_date_range("2023-02-28", "2023-03-01").unwrap();
    assert_eq!(r2, vec!["2023-02-28", "2023-03-01"]);
}

#[test]
fn range_length_matches_day_difference() {
    let r = generate_date_range("2025-01-01", "2025-12-31").unwrap();
    assert_eq!(r.len(), 365);
    let leap = generate_date_range("2024-01-01", "2024-12-31").unwrap();
    assert_eq!(leap.len(), 366);
}

#[test]
fn next_day_rolls_over() {
    let d = next_day(Date { year: 2024, month: 2, day: 28 });
    assert_eq!(d, Date { year: 2024, month: 2, day: 29 });
    let e = next_day(Date { year: 2024, month: 12, day: 31 });
    assert_eq!(e, Date { year: 2025, month: 1, day: 1 });
}

#[test]
fn date_le_orders_by_calendar() {
    let a = Date { year: 2024, month: 12, day: 31 };
    let b = Date { year: 2025, month: 1, day: 1 };
    assert!(date_le(a, b));
    assert!(!date_le(b, a));
    assert!(date_le(a, a));
}

#[test]
fn quarter_label_covers_the_year() {
    assert_eq!(quarter_label(2025, 1), "2025-Q1");
    assert_eq!(quarter_label(2025, 3), "2025-Q1");
    assert_eq!(quarter_label(2025, 4), "2025-Q2");
    assert_eq!(quarter_label(2025, 9), "2025-Q3");
    assert_eq!(quarter_label(2025, 12), "2025-Q4");
}

#[test]
fn current_quarter_has_the_label_shape() {
    let q = get_current_quarter();
    assert!(q.contains("-Q"));
    let n: u32 = q[q.len() - 1..].parse().unwrap();
    assert!((1..=4).contains(&n));
}

#[test]
fn today_is_a_valid_date_string() {
    let t = today_utc_string();
    assert!(t.len() >= 10);
    assert!(parse_date(&t).is_some());
}
