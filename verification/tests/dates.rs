use quittance::dates::Date;
use quittance::leases::end_date;
use quittance::text::{not_found, receipt_exists};
use quittance::ids::Id;

fn day(year: i32, month: u32, day: u32) -> Date {
    Date { year, month, day }
}

#[test]
fn date_is_read_from_year_month_day() {
    assert_eq!(Date::parse("2024-02-29"), Some(day(2024, 2, 29)));
    assert_eq!(Date::parse("1999-12-31"), Some(day(1999, 12, 31)));
    assert_eq!(Date::parse("2023-02-29"), None);
    assert_eq!(Date::parse("2023-00-10"), None);
    assert_eq!(Date::parse("10-02-2023x"), None);
    assert_eq!(Date::parse(""), None);
}

#[test]
fn months_are_added_by_the_calendar() {
    assert_eq!(day(2024, 1, 15).plus_months(12), Some(day(2025, 1, 15)));
    assert_eq!(day(2024, 1, 31).plus_months(1), Some(day(2024, 2, 29)));
    assert_eq!(day(2023, 11, 30).plus_months(3), Some(day(2024, 2, 29)));
    assert_eq!(day(2024, 5, 5).plus_months(0), Some(day(2024, 5, 5)));
    assert_eq!(day(2024, 2, 30).plus_months(1), None);
    assert_eq!(day(2024, 1, 1).plus_months(u32::MAX), None);
}

#[test]
fn lease_ends_its_duration_after_its_start() {
    assert_eq!(end_date(day(2024, 3, 1), 36), Some(day(2027, 3, 1)));
    assert_eq!(end_date(day(2024, 3, 1), 0), Some(day(2024, 3, 1)));
    assert_eq!(end_date(day(2024, 3, 1), -1), None);
    assert_eq!(end_date(day(2024, 3, 1), i32::MAX), None);
}

#[test]
fn not_found_message_names_kind_and_identifier() {
    assert_eq!(
        not_found("Property", Id(0x550e8400_e29b_41d4_a716_446655440000)),
        "Property with id 550e8400-e29b-41d4-a716-446655440000 not found"
    );
    assert_eq!(
        not_found("Lease", Id(1)),
        "Lease with id 00000000-0000-0000-0000-000000000001 not found"
    );
}

#[test]
fn receipt_message_names_the_period() {
    assert_eq!(receipt_exists(3, 2024), "Receipt already exists for 3/2024");
    assert_eq!(receipt_exists(12, -5), "Receipt already exists for 12/-5");
    assert_eq!(receipt_exists(10, 0), "Receipt already exists for 10/0");
    assert_eq!(
        receipt_exists(i32::MIN, i32::MAX),
        "Receipt already exists for -2147483648/2147483647"
    );
}
