use techxt::today::{civil_from_days, date_of_reading, format_date, today};

const MONTH_NAMES: [&str; 12] = [
    "January",
    "February",
    "March",
    "April",
    "May",
    "June",
    "July",
    "August",
    "September",
    "October",
    "November",
    "December",
];

#[test]
fn the_epoch_is_the_first_of_january_1970() {
    assert_eq!(civil_from_days(0), (1970, 1, 1));
    assert_eq!(format_date(1970, 1, 1), "January 1, 1970");
}

#[test]
fn the_plans_own_example_round_trips() {
    // 2026-08-19 is 20684 days after the epoch.
    assert_eq!(civil_from_days(20_684), (2026, 8, 19));
    assert_eq!(format_date(2026, 8, 19), "August 19, 2026");
}

#[test]
fn days_before_the_epoch_count_backwards() {
    assert_eq!(civil_from_days(-1), (1969, 12, 31));
    assert_eq!(civil_from_days(-365), (1969, 1, 1));
    assert_eq!(civil_from_days(-719_468), (0, 3, 1));
}

#[test]
fn leap_days_land_where_the_gregorian_rules_put_them() {
    // 2000 is a leap year (divisible by 400), 1900 is not (divisible by 100).
    assert_eq!(civil_from_days(11_016), (2000, 2, 29));
    assert_eq!(civil_from_days(11_017), (2000, 3, 1));
    assert_eq!(civil_from_days(-25_509), (1900, 2, 28));
    assert_eq!(civil_from_days(-25_508), (1900, 3, 1));
}

#[test]
fn every_day_of_a_year_is_consecutive() {
    let lengths = [31, 29, 31, 30, 31, 30, 31, 31, 30, 31, 30, 31];
    let mut day_number = 19_723; // 2024-01-01
    for (index, length) in lengths.iter().enumerate() {
        for day in 1..=*length {
            assert_eq!(
                civil_from_days(day_number),
                (2024, index as u32 + 1, day),
                "at day number {day_number}"
            );
            day_number += 1;
        }
    }
    assert_eq!(civil_from_days(day_number), (2025, 1, 1));
}

#[test]
fn a_month_number_out_of_range_is_printed_rather_than_panicking() {
    assert_eq!(format_date(2026, 13, 1), "13 1, 2026");
    assert_eq!(format_date(2026, 0, 1), "0 1, 2026");
}

#[test]
fn the_clock_reading_is_a_plausible_date() {
    let today = today();
    let (month, rest) = today.split_once(' ').expect("a month name and a date");
    assert!(MONTH_NAMES.contains(&month), "{today}");
    let (day, year) = rest.split_once(", ").expect("a day and a year");
    assert!(matches!(day.parse::<u32>(), Ok(1..=31)), "{today}");
    assert!(matches!(year.parse::<i32>(), Ok(2020..=2200)), "{today}");
}

#[test]
fn negative_years_keep_their_sign() {
    assert_eq!(format_date(-44, 3, 15), "March 15, -44");
    assert_eq!(civil_from_days(-719_469), (0, 2, 29));
    assert_eq!(civil_from_days(-719_529), (-1, 12, 31));
}

#[test]
fn a_clock_reading_gives_its_date() {
    assert_eq!(date_of_reading(Ok(20_684 * 86_400)), "August 19, 2026");
    assert_eq!(date_of_reading(Ok(20_684 * 86_400 + 86_399)), "August 19, 2026");
    assert_eq!(date_of_reading(Ok(0)), "January 1, 1970");
}

#[test]
fn a_reading_before_the_epoch_counts_back_by_whole_days() {
    assert_eq!(date_of_reading(Err(1)), "December 31, 1969");
    assert_eq!(date_of_reading(Err(86_400)), "December 31, 1969");
    assert_eq!(date_of_reading(Err(86_401)), "December 30, 1969");
}

#[test]
fn an_absurd_reading_saturates_rather_than_panicking() {
    assert!(!date_of_reading(Ok(u64::MAX)).is_empty());
    assert!(!date_of_reading(Err(u64::MAX)).is_empty());
    assert_eq!(date_of_reading(Ok(u64::MAX)), date_of_reading(Ok(i64::MAX as u64)));
}
