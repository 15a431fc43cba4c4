//! Today's date, in the English form `\today` produces.
//!
//! The options hold `\today` as a plain string, and the only thing standing between the
//! system clock and that string is a civil-calendar conversion and a table of month
//! names. [`format_date`] and [`civil_from_days`] are functions of their arguments;
//! [`today`] is the one place that asks what time it is.

use vstd::prelude::*;

use crate::text::{decimal_text, push_char, push_decimal};

verus! {

/// The proleptic-Gregorian date `days` after 1970-01-01, as (year, month, day) with the
/// year not yet narrowed: Howard Hinnant's `civil_from_days`, which shifts the epoch to
/// 0000-03-01 so that the leap day lands at the end of the year and the 400-year cycle
/// becomes plain arithmetic. Division here is floor division, as a day number runs from
/// midnight to midnight.
///
/// The constants: 719468 is the day count from 0000-03-01 to 1970-01-01; 146097 the
/// days in a 400-year era; 1460, 36524 and 146096 count the leap-day corrections of the
/// 4-, 100- and 400-year cycles; and `(153 * m + 2) / 5` is the closed form of the
/// March-based month lengths 31, 30, 31, 30, 31, 31, 30, 31, 30, 31, 31, 28.
pub open spec fn civil(days: int) -> (int, int, int) {
    let z = days + 719468;
    let era = z / 146097;
    let doe = z % 146097;
    let yoe = (doe - doe / 1460 + doe / 36524 - doe / 146096) / 365;
    let y = yoe + era * 400;
    let doy = doe - (365 * yoe + yoe / 4 - yoe / 100);
    let mp = (5 * doy + 2) / 153;
    let day = doy - (153 * mp + 2) / 5 + 1;
    let month = if mp < 10 { mp + 3 } else { mp - 9 };
    let year = if month <= 2 { y + 1 } else { y };
    (year, month, day)
}

/// The month names `\today` spells out, by month number.
pub open spec fn month_name(month: u32) -> Seq<char> {
    if month == 1 { seq!['J', 'a', 'n', 'u', 'a', 'r', 'y'] }
    else if month == 2 { seq!['F', 'e', 'b', 'r', 'u', 'a', 'r', 'y'] }
    else if month == 3 { seq!['M', 'a', 'r', 'c', 'h'] }
    else if month == 4 { seq!['A', 'p', 'r', 'i', 'l'] }
    else if month == 5 { seq!['M', 'a', 'y'] }
    else if month == 6 { seq!['J', 'u', 'n', 'e'] }
    else if month == 7 { seq!['J', 'u', 'l', 'y'] }
    else if month == 8 { seq!['A', 'u', 'g', 'u', 's', 't'] }
    else if month == 9 { seq!['S', 'e', 'p', 't', 'e', 'm', 'b', 'e', 'r'] }
    else if month == 10 { seq!['O', 'c', 't', 'o', 'b', 'e', 'r'] }
    else if month == 11 { seq!['N', 'o', 'v', 'e', 'm', 'b', 'e', 'r'] }
    else if month == 12 { seq!['D', 'e', 'c', 'e', 'm', 'b', 'e', 'r'] }
    else { decimal_text(month as nat) }
}

/// The English month names, January first.
pub open spec fn english_months() -> Seq<Seq<char>> {
    seq![
        "January"@, "February"@, "March"@, "April"@, "May"@, "June"@, "July"@, "August"@,
        "September"@, "October"@, "November"@, "December"@,
    ]
}

/// Month `m`, for `m` from 1 to 12, is written as the `m`-th English month name, and a
/// date opens with it: whatever the year and the day, `date_text(y, m, d)` begins with
/// that name followed by a space — June is the sixth month and July the seventh.
pub proof fn lemma_months_are_named_in_order(year: i32, month: u32, day: u32)
    requires
        1 <= month <= 12,
    ensures
        month_name(month) == english_months()[month - 1],
        ({
            let name = english_months()[month - 1];
            &&& date_text(year, month, day).subrange(0, name.len() as int) == name
            &&& date_text(year, month, day)[name.len() as int] == ' '
        }),
{
    reveal_strlit("January");
    reveal_strlit("February");
    reveal_strlit("March");
    reveal_strlit("April");
    reveal_strlit("May");
    reveal_strlit("June");
    reveal_strlit("July");
    reveal_strlit("August");
    reveal_strlit("September");
    reveal_strlit("October");
    reveal_strlit("November");
    reveal_strlit("December");
    let name = english_months()[month - 1];
    assert(month_name(month) =~= name);
    let text = date_text(year, month, day);
    assert(text.subrange(0, name.len() as int) =~= name);
}

/// An integer in decimal, with a minus sign when negative.
pub open spec fn signed_text(value: int) -> Seq<char> {
    if value < 0 {
        seq!['-'] + decimal_text((-value) as nat)
    } else {
        decimal_text(value as nat)
    }
}

/// A date as `\today` writes it in English: month name, day without a leading zero,
/// comma, year — `August 19, 2026`. A month outside 1 to 12 is written as its number.
pub open spec fn date_text(year: i32, month: u32, day: u32) -> Seq<char> {
    month_name(month) + seq![' '] + decimal_text(day as nat) + seq![',', ' '] + signed_text(year as int)
}

/// The date `\today` shows for a clock reading `seconds` after the epoch (before it when
/// negative), in UTC.
pub open spec fn today_text(seconds: int) -> Seq<char> {
    let (year, month, day) = civil(seconds / 86400);
    date_text(year as i32, month as u32, day as u32)
}

/// Convert a count of days since 1970-01-01 into a proleptic-Gregorian `(year, month,
/// day)`. Exact for every day whose year fits an `i32`, days before the epoch included.
pub fn civil_from_days(days: i64) -> (date: (i32, u32, u32))
    requires
        days <= i64::MAX - 719468,
    ensures
        date.0 == civil(days as int).0 as i32,
        date.1 == civil(days as int).1,
        date.2 == civil(days as int).2,
        1 <= date.1 <= 12,
        1 <= date.2 <= 31,
{
    let z = days + 719_468;
    // Era = the 400-year cycle the day falls in, floored so negative days work.
    let era = match z.checked_div_euclid(146_097) {
        Some(era) => era,
        None => 0,
    };
    // Day of era, 0..=146096.
    let doe = match z.checked_rem_euclid(146_097) {
        Some(doe) => doe,
        None => 0,
    };
    assert(0 <= doe < 146097);
    assert(era == (z as int) / 146097);
    assert(z as int == era * 146097 + doe) by (nonlinear_arith)
        requires
            era == (z as int) / 146097,
            doe == (z as int) % 146097;
    assert(-63_131_837_319_413i64 <= era <= 63_131_837_319_416i64) by (nonlinear_arith)
        requires
            z as int == era * 146097 + doe,
            0 <= doe < 146097,
            i64::MIN + 719468 <= z <= i64::MAX;
    // Year of era, 0..=399.
    let yoe = (doe - doe / 1460 + doe / 36524 - doe / 146_096) / 365;
    assert(0 <= yoe <= 399);
    // Year, still counted from March.
    let y = yoe + era * 400;
    // Day of the March-based year, 0..=365.
    let doy = doe - (365 * yoe + yoe / 4 - yoe / 100);
    assert(0 <= doy <= 365) by (nonlinear_arith)
        requires
            0 <= doe < 146097,
            yoe == (doe - doe / 1460 + doe / 36524 - doe / 146096) / 365,
            doy == doe - (365 * yoe + yoe / 4 - yoe / 100);
    // March-based month index, 0..=11 (0 = March).
    let mp = (5 * doy + 2) / 153;
    assert(0 <= mp <= 11);
    let day_number = doy - (153 * mp + 2) / 5 + 1;
    assert(1 <= day_number <= 31) by (nonlinear_arith)
        requires
            0 <= doy <= 365,
            mp == (5 * doy + 2) / 153,
            day_number == doy - (153 * mp + 2) / 5 + 1;
    let day = day_number as u32;
    // Back to a January-based month, carrying the year over at the turn.
    let month = (if mp < 10 { mp + 3 } else { mp - 9 }) as u32;
    let year = if month <= 2 { y + 1 } else { y };
    (year as i32, month, day)
}

/// Append the decimal spelling of `value`, with a minus sign when negative.
fn push_signed(out: &mut String, value: i32)
    ensures
        final(out)@ == old(out)@ + signed_text(value as int),
{
    let wide = value as i64;
    if wide < 0 {
        push_char(out, '-');
        push_decimal(out, (-wide) as u64);
        assert(final(out)@ =~= old(out)@ + signed_text(value as int));
    } else {
        push_decimal(out, wide as u64);
    }
}

/// Append the characters of `text`.
fn push_all(out: &mut String, text: &[char])
    ensures
        final(out)@ == old(out)@ + text@,
{
    let mut i: usize = 0;
    while i < text.len()
        invariant
            i <= text@.len(),
            out@ == old(out)@ + text@.take(i as int),
        decreases text@.len() - i,
    {
        push_char(out, text[i]);
        assert(text@.take(i + 1) =~= text@.take(i as int).push(text@[i as int]));
        i = i + 1;
    }
    assert(text@.take(text@.len() as int) =~= text@);
}

/// Append the English name of a month, or its number when it names none.
fn push_month(out: &mut String, month: u32)
    ensures
        final(out)@ == old(out)@ + month_name(month),
{
    match month {
        1 => push_all(out, &['J', 'a', 'n', 'u', 'a', 'r', 'y']),
        2 => push_all(out, &['F', 'e', 'b', 'r', 'u', 'a', 'r', 'y']),
        3 => push_all(out, &['M', 'a', 'r', 'c', 'h']),
        4 => push_all(out, &['A', 'p', 'r', 'i', 'l']),
        5 => push_all(out, &['M', 'a', 'y']),
        6 => push_all(out, &['J', 'u', 'n', 'e']),
        7 => push_all(out, &['J', 'u', 'l', 'y']),
        8 => push_all(out, &['A', 'u', 'g', 'u', 's', 't']),
        9 => push_all(out, &['S', 'e', 'p', 't', 'e', 'm', 'b', 'e', 'r']),
        10 => push_all(out, &['O', 'c', 't', 'o', 'b', 'e', 'r']),
        11 => push_all(out, &['N', 'o', 'v', 'e', 'm', 'b', 'e', 'r']),
        12 => push_all(out, &['D', 'e', 'c', 'e', 'm', 'b', 'e', 'r']),
        // A month outside 1..=12 cannot arise from `civil_from_days`, so it is written
        // as its own number rather than being made a panic.
        _ => push_decimal(out, month as u64),
    }
}

/// Format a proleptic-Gregorian date the way LaTeX's `\today` does in English: month
/// name, day of month without a leading zero, comma, year.
///
/// `month` is 1-based. A month outside 1..=12 is rendered as its own number.
pub fn format_date(year: i32, month: u32, day: u32) -> (text: String)
    ensures
        text@ == date_text(year, month, day),
{
    let mut out = String::new();
    push_month(&mut out, month);
    push_char(&mut out, ' ');
    push_decimal(&mut out, day as u64);
    push_char(&mut out, ',');
    push_char(&mut out, ' ');
    push_signed(&mut out, year);
    assert(out@ =~= date_text(year, month, day));
    out
}

/// How far the system clock is from the epoch, in whole seconds: `Ok` after it, `Err`
/// before it (`SystemTime::now` and `SystemTime::duration_since`).
///
/// A clock reading is whatever the machine says; nothing is promised of it.
#[verifier::external_body]
fn clock_reading() -> (reading: Result<u64, u64>) {
    match std::time::SystemTime::now().duration_since(std::time::UNIX_EPOCH) {
        Ok(since) => Ok(since.as_secs()),
        Err(before) => Err(before.duration().as_secs()),
    }
}

/// The clock reading as whole seconds from the epoch, negative before it: a reading too
/// large for an `i64` saturates at its end of the range.
pub open spec fn seconds_of(reading: Result<u64, u64>) -> int {
    match reading {
        Ok(since) => if since <= i64::MAX { since as int } else { i64::MAX as int },
        Err(before) => if before <= i64::MAX { -(before as int) } else { i64::MIN as int },
    }
}

/// The date `\today` shows for a clock reading, as [`clock_reading`] gives it: `Ok` with
/// the seconds since the epoch, `Err` with the seconds before it. A reading too large
/// for an `i64` saturates, so a misconfigured machine gets a wrong date, never a panic.
pub fn date_of_reading(reading: Result<u64, u64>) -> (text: String)
    ensures
        text@ == today_text(seconds_of(reading)),
{
    let seconds: i64 = match reading {
        Ok(since) => if since <= i64::MAX as u64 {
            since as i64
        } else {
            i64::MAX
        },
        Err(before) => if before <= i64::MAX as u64 {
            -(before as i64)
        } else {
            i64::MIN
        },
    };
    // Floor division, not truncation: every second of 1969-12-31 belongs to day -1.
    let days = match seconds.checked_div_euclid(86_400) {
        Some(days) => days,
        None => 0,
    };
    assert(days == (seconds as int) / 86400);
    assert(-106_751_991_167_301i64 <= days <= 106_751_991_167_300i64) by (nonlinear_arith)
        requires
            days == (seconds as int) / 86400,
            i64::MIN <= seconds <= i64::MAX;
    let (year, month, day) = civil_from_days(days);
    let text = format_date(year, month, day);
    assert(text@ == today_text(seconds as int));
    text
}

/// Today's date as `"August 19, 2026"`, read from the system clock in **UTC**: the
/// [`date_of_reading`] of whatever the clock reads.
///
/// UTC rather than local time because the alternative is a time-zone database.
pub fn today() -> (text: String)
    ensures
        exists|reading: Result<u64, u64>| text@ == today_text(seconds_of(reading)),
{
    let reading = clock_reading();
    let text = date_of_reading(reading);
    assert(text@ == today_text(seconds_of(reading)));
    text
}

// ------------------------------------------------------------------ the calendar

/// Whether `year` is a leap year of the proleptic Gregorian calendar: divisible by 4,
/// and not by 100 unless by 400.
pub open spec fn is_leap_year(year: int) -> bool {
    year % 4 == 0 && (year % 100 != 0 || year % 400 == 0)
}

/// The number of days in `month` (1 to 12) of `year`.
pub open spec fn month_length(year: int, month: int) -> int {
    if month == 2 {
        if is_leap_year(year) { 29 } else { 28 }
    } else if month == 4 || month == 6 || month == 9 || month == 11 {
        30
    } else {
        31
    }
}

/// The days of `year` that lie in the months before `month`.
pub open spec fn days_before_month(year: int, month: int) -> int
    decreases month,
{
    if month <= 1 {
        0
    } else {
        days_before_month(year, month - 1) + month_length(year, month - 1)
    }
}

/// How many leap years there are from year 1 through `year` (a negative count below
/// year 1): the multiples of 4, less those of 100, plus those of 400.
pub open spec fn leap_years_through(year: int) -> int {
    year / 4 - year / 100 + year / 400
}

/// The day number of the first of January of `year`, counted from 1970-01-01.
pub open spec fn year_start(year: int) -> int {
    365 * (year - 1970) + leap_years_through(year - 1) - leap_years_through(1969)
}

/// The number of days from 1970-01-01 to the given date (negative before it).
pub open spec fn day_number(year: int, month: int, day: int) -> int {
    year_start(year) + days_before_month(year, month) + day - 1
}

/// Each year is 365 days long, 366 in a leap year, and its twelve months make it up.
pub proof fn lemma_years_follow_one_another(year: int)
    ensures
        year_start(year + 1) == year_start(year) + 365 + (if is_leap_year(year) { 1int } else { 0 }),
        days_before_month(year, 13) == 365 + (if is_leap_year(year) { 1int } else { 0 }),
{
    lemma_leap_years_step(year);
    reveal_with_fuel(days_before_month, 13);
}

/// The leap-year count grows by one exactly at a leap year.
proof fn lemma_leap_years_step(year: int)
    ensures
        leap_years_through(year) == leap_years_through(year - 1) + (if is_leap_year(year) {
            1int
        } else {
            0
        }),
{
    assert(year / 4 == (year - 1) / 4 + (if year % 4 == 0 { 1int } else { 0 })) by (nonlinear_arith);
    assert(year / 100 == (year - 1) / 100 + (if year % 100 == 0 { 1int } else { 0 })) by (nonlinear_arith);
    assert(year / 400 == (year - 1) / 400 + (if year % 400 == 0 { 1int } else { 0 })) by (nonlinear_arith);
    assert(year % 100 == 0 ==> year % 4 == 0) by (nonlinear_arith);
    assert(year % 400 == 0 ==> year % 100 == 0) by (nonlinear_arith);
}

/// The leap years through a year inside a 400-year era, counted from the era's start.
proof fn lemma_leap_years_in_era(era: int, yoe: int)
    requires
        0 <= yoe < 400,
    ensures
        leap_years_through(400 * era + yoe) == 97 * era + yoe / 4 - yoe / 100,
{
    assert((400 * era + yoe) / 4 == 100 * era + yoe / 4) by (nonlinear_arith)
        requires 0 <= yoe < 400;
    assert((400 * era + yoe) / 100 == 4 * era + yoe / 100) by (nonlinear_arith)
        requires 0 <= yoe < 400;
    assert((400 * era + yoe) / 400 == era) by (nonlinear_arith)
        requires 0 <= yoe < 400;
}

/// `civil` is the proleptic Gregorian calendar: for every day number it gives a real
/// date — a month from 1 to 12, a day within that month's length, the 29th of February
/// only in a leap year — and counting the days from 1970-01-01 to that date by the
/// calendar's rules gives the day number back.
pub proof fn lemma_civil_is_the_gregorian_calendar(days: int)
    ensures
        ({
            let (year, month, day) = civil(days);
            &&& 1 <= month <= 12
            &&& 1 <= day <= month_length(year, month)
            &&& day_number(year, month, day) == days
        }),
{
    let z = days + 719468;
    let era = z / 146097;
    let doe = z % 146097;
    assert(z == era * 146097 + doe && 0 <= doe < 146097) by (nonlinear_arith)
        requires
            era == z / 146097,
            doe == z % 146097;
    let yoe = (doe - doe / 1460 + doe / 36524 - doe / 146096) / 365;
    let doy = doe - (365 * yoe + yoe / 4 - yoe / 100);
    assert(0 <= yoe <= 399 && 0 <= doy <= 365) by (nonlinear_arith)
        requires
            0 <= doe < 146097,
            yoe == (doe - doe / 1460 + doe / 36524 - doe / 146096) / 365,
            doy == doe - (365 * yoe + yoe / 4 - yoe / 100);
    assert(doy == 365 ==> (yoe + 1) % 4 == 0 && ((yoe + 1) % 100 != 0 || yoe == 399))
        by (nonlinear_arith)
        requires
            0 <= doe < 146097,
            yoe == (doe - doe / 1460 + doe / 36524 - doe / 146096) / 365,
            doy == doe - (365 * yoe + yoe / 4 - yoe / 100);
    let mp = (5 * doy + 2) / 153;
    let day = doy - (153 * mp + 2) / 5 + 1;
    let month = if mp < 10 { mp + 3 } else { mp - 9 };
    let y = yoe + era * 400;
    let year = if month <= 2 { y + 1 } else { y };
    assert(civil(days) == (year, month, day));
    lemma_leap_years_in_era(era, yoe);
    reveal_with_fuel(days_before_month, 13);
    if month <= 2 {
        // January and February close the March-based year `yoe`.
        assert(leap_years_through(year - 1) == 97 * era + yoe / 4 - yoe / 100);
        if doy == 365 {
            assert(is_leap_year(year)) by (nonlinear_arith)
                requires
                    year == 400 * era + yoe + 1,
                    (yoe + 1) % 4 == 0 && ((yoe + 1) % 100 != 0 || yoe == 399),
                    0 <= yoe <= 399;
        }
    } else {
        lemma_leap_years_step(year);
    }
}

/// Whether (year, month, day) names a day of the calendar.
pub open spec fn is_valid_date(year: int, month: int, day: int) -> bool {
    1 <= month <= 12 && 1 <= day <= month_length(year, month)
}

/// The day after a date: the next day of the month, the first of the next month, or
/// New Year's Day.
pub open spec fn next_date(date: (int, int, int)) -> (int, int, int) {
    let (year, month, day) = date;
    if day < month_length(year, month) {
        (year, month, day + 1)
    } else if month < 12 {
        (year, month + 1, 1)
    } else {
        (year + 1, 1, 1)
    }
}

/// A later year starts no earlier than the one after an earlier year.
proof fn lemma_year_starts_increase(earlier: int, later: int)
    requires
        earlier < later,
    ensures
        year_start(earlier + 1) <= year_start(later),
    decreases later - earlier,
{
    if earlier + 1 < later {
        lemma_year_starts_increase(earlier, later - 1);
        lemma_years_follow_one_another(later - 1);
    }
}

/// A date's day number lies within its year, and within its month.
proof fn lemma_day_number_bounds(year: int, month: int, day: int)
    requires
        is_valid_date(year, month, day),
    ensures
        year_start(year) <= day_number(year, month, day) < year_start(year + 1),
        days_before_month(year, month) + day <= days_before_month(year, month + 1),
        forall|later: int|
            month < later <= 13 ==> #[trigger] days_before_month(year, later) >= days_before_month(
                year,
                month + 1,
            ),
{
    reveal_with_fuel(days_before_month, 13);
    lemma_years_follow_one_another(year);
}

/// Two dates with the same day number are the same date.
proof fn lemma_day_numbers_tell_dates_apart(a: (int, int, int), b: (int, int, int))
    requires
        is_valid_date(a.0, a.1, a.2),
        is_valid_date(b.0, b.1, b.2),
        day_number(a.0, a.1, a.2) == day_number(b.0, b.1, b.2),
    ensures
        a == b,
{
    lemma_day_number_bounds(a.0, a.1, a.2);
    lemma_day_number_bounds(b.0, b.1, b.2);
    if a.0 < b.0 {
        lemma_year_starts_increase(a.0, b.0);
    } else if b.0 < a.0 {
        lemma_year_starts_increase(b.0, a.0);
    } else if a.1 < b.1 {
        assert(days_before_month(a.0, b.1) >= days_before_month(a.0, a.1 + 1));
    } else if b.1 < a.1 {
        assert(days_before_month(b.0, a.1) >= days_before_month(b.0, b.1 + 1));
    }
}

/// The day after any day is the next date: the calendar runs through every month in
/// order, each for exactly its length, and into the next year after December 31.
pub proof fn lemma_the_next_day_is_the_next_date(days: int)
    ensures
        civil(days + 1) == next_date(civil(days)),
{
    lemma_civil_is_the_gregorian_calendar(days);
    lemma_civil_is_the_gregorian_calendar(days + 1);
    let (year, month, day) = civil(days);
    let next = next_date(civil(days));
    reveal_with_fuel(days_before_month, 13);
    if day >= month_length(year, month) && month >= 12 {
        lemma_years_follow_one_another(year);
    }
    assert(is_valid_date(next.0, next.1, next.2));
    assert(day_number(next.0, next.1, next.2) == days + 1);
    lemma_day_numbers_tell_dates_apart(civil(days + 1), next);
}

} // verus!
