//! The proleptic Gregorian calendar for the years 0000 to 9999, and the count
//! of days and seconds that places a civil date and time on the time line.

use vstd::prelude::*;

verus! {

/// The last year that a calendar date can name.
pub const MAX_YEAR: u16 = 9999;

/// The number of days in the years 0000 to 9999.
pub const CALENDAR_DAYS: u32 = 3_652_425;

/// The number of days from 0000-01-01 to 1970-01-01.
pub const UNIX_EPOCH_DAY: u32 = 719_528;

/// The number of seconds in a civil day.
pub const SECONDS_PER_DAY: u32 = 86_400;

/// The number of seconds from 0000-01-01 00:00:00 to 1970-01-01 00:00:00.
pub const UNIX_EPOCH_SECOND: i64 = 62_167_219_200;

/// The seconds count of 0000-01-01 00:00:00, the first second of the calendar.
pub const CIVIL_MIN_SECONDS: i64 = -62_167_219_200;

/// The seconds count of 9999-12-31 23:59:59, the last second of the calendar.
pub const CIVIL_MAX_SECONDS: i64 = 253_402_300_799;

/// The seconds count of the first second of the two days before the calendar.
pub const SHOWN_MIN_SECONDS: i64 = -62_167_392_000;

/// The seconds count of the last second of the two days after the calendar.
pub const SHOWN_MAX_SECONDS: i64 = 253_402_473_599;

/// Whether `year` has a 29 February.
pub open spec fn is_leap_year(year: int) -> bool {
    year % 4 == 0 && (year % 100 != 0 || year % 400 == 0)
}

/// The number of days in `year`.
pub open spec fn days_in_year(year: int) -> int {
    if is_leap_year(year) {
        366
    } else {
        365
    }
}

/// The number of days in month `month` (1 to 12) of `year`.
pub open spec fn days_in_month(year: int, month: int) -> int {
    if month == 2 {
        if is_leap_year(year) {
            29
        } else {
            28
        }
    } else if month == 4 || month == 6 || month == 9 || month == 11 {
        30
    } else {
        31
    }
}

/// Whether (`year`, `month`, `day`) is a day of the calendar.
pub open spec fn valid_date(year: int, month: int, day: int) -> bool {
    &&& 0 <= year <= MAX_YEAR
    &&& 1 <= month <= 12
    &&& 1 <= day <= days_in_month(year, month)
}

/// Whether (`year`, `month`, `day`) is a day of the calendar or one of the two
/// days on either side of it: 30 or 31 December of the year before year 0, or
/// 1 or 2 January of the year 10000. These are the days that a clock anywhere
/// can show while UTC shows a day of the calendar or the day next to it.
pub open spec fn shown_date(year: int, month: int, day: int) -> bool {
    ||| valid_date(year, month, day)
    ||| (year == -1 && month == 12 && (day == 30 || day == 31))
    ||| (year == MAX_YEAR + 1 && month == 1 && (day == 1 || day == 2))
}

/// Whether (`hour`, `minute`, `second`) is a time of the 24-hour clock.
pub open spec fn valid_time(hour: int, minute: int, second: int) -> bool {
    &&& 0 <= hour < 24
    &&& 0 <= minute < 60
    &&& 0 <= second < 60
}

/// The number of days from the start of year 0 to the start of `year`:
/// negative for a year before year 0.
pub open spec fn days_before_year(year: int) -> int
    decreases
        (if year >= 0 {
            year
        } else {
            -year
        }),
{
    if year > 0 {
        days_before_year(year - 1) + days_in_year(year - 1)
    } else if year < 0 {
        days_before_year(year + 1) - days_in_year(year)
    } else {
        0
    }
}

/// The number of days in the months of `year` before `month`.
pub open spec fn days_before_month(year: int, month: int) -> int
    decreases month,
{
    if month <= 1 {
        0
    } else {
        days_before_month(year, month - 1) + days_in_month(year, month - 1)
    }
}

/// The number of days from 0000-01-01 to the given date.
pub open spec fn day_index(year: int, month: int, day: int) -> int {
    days_before_year(year) + days_before_month(year, month) + day - 1
}

/// The number of seconds from midnight to the given time of day.
pub open spec fn second_of_day(hour: int, minute: int, second: int) -> int {
    hour * 3600 + minute * 60 + second
}

/// The number of seconds from 1970-01-01 00:00:00 to the given civil date and
/// time, every day counted as 86 400 seconds.
pub open spec fn civil_seconds(
    year: int,
    month: int,
    day: int,
    hour: int,
    minute: int,
    second: int,
) -> int {
    (day_index(year, month, day) - UNIX_EPOCH_DAY) * SECONDS_PER_DAY + second_of_day(
        hour,
        minute,
        second,
    )
}

/// The days before a year, without recursion.
#[verifier::rlimit(40)]
pub proof fn lemma_days_before_year_closed_form(year: int)
    requires
        year >= 0,
    ensures
        days_before_year(year) == 365 * year + (year + 3) / 4 - (year + 99) / 100 + (year + 399)
            / 400,
    decreases year,
{
    if year > 0 {
        lemma_days_before_year_closed_form(year - 1);
    }
}

/// Later years start later, by at least 365 days for each year between.
pub proof fn lemma_days_before_year_grows(earlier: int, later: int)
    requires
        0 <= earlier <= later,
    ensures
        days_before_year(later) >= days_before_year(earlier) + 365 * (later - earlier),
    decreases later - earlier,
{
    if earlier < later {
        lemma_days_before_year_grows(earlier, later - 1);
    }
}

/// The days before a month, month by month.
pub proof fn lemma_days_before_month_table(year: int)
    ensures
        days_before_month(year, 1) == 0,
        days_before_month(year, 2) == 31,
        days_before_month(year, 3) == 31 + days_in_month(year, 2),
        days_before_month(year, 4) == 62 + days_in_month(year, 2),
        days_before_month(year, 5) == 92 + days_in_month(year, 2),
        days_before_month(year, 6) == 123 + days_in_month(year, 2),
        days_before_month(year, 7) == 153 + days_in_month(year, 2),
        days_before_month(year, 8) == 184 + days_in_month(year, 2),
        days_before_month(year, 9) == 215 + days_in_month(year, 2),
        days_before_month(year, 10) == 245 + days_in_month(year, 2),
        days_before_month(year, 11) == 276 + days_in_month(year, 2),
        days_before_month(year, 12) == 306 + days_in_month(year, 2),
        days_before_month(year, 13) == days_in_year(year),
{
    reveal_with_fuel(days_before_month, 14);
}

/// Whether `year` has a 29 February.
pub fn leap_year(year: u16) -> (r: bool)
    ensures
        r == is_leap_year(year as int),
{
    year % 4 == 0 && (year % 100 != 0 || year % 400 == 0)
}

/// The number of days in month `month` of `year`.
pub(crate) fn month_length(year: u16, month: u8) -> (r: u8)
    requires
        1 <= month <= 12,
    ensures
        r == days_in_month(year as int, month as int),
{
    if month == 2 {
        if leap_year(year) {
            29
        } else {
            28
        }
    } else if month == 4 || month == 6 || month == 9 || month == 11 {
        30
    } else {
        31
    }
}

/// The number of days in the years before `year`.
pub(crate) fn year_start(year: u16) -> (r: u32)
    requires
        year <= MAX_YEAR + 1,
    ensures
        r == days_before_year(year as int),
        r <= CALENDAR_DAYS,
{
    proof {
        lemma_days_before_year_closed_form(year as int);
    }
    let y: u32 = year as u32;
    365 * y + (y + 3) / 4 - (y + 99) / 100 + (y + 399) / 400
}

/// The number of days in the months of `year` before `month`.
pub(crate) fn month_start(year: u16, month: u8) -> (r: u32)
    requires
        1 <= month <= 13,
    ensures
        r == days_before_month(year as int, month as int),
        r <= 366,
{
    proof {
        lemma_days_before_month_table(year as int);
    }
    let february: u32 = if leap_year(year) {
        29
    } else {
        28
    };
    if month == 1 {
        0
    } else if month == 2 {
        31
    } else if month == 3 {
        31 + february
    } else if month == 4 {
        62 + february
    } else if month == 5 {
        92 + february
    } else if month == 6 {
        123 + february
    } else if month == 7 {
        153 + february
    } else if month == 8 {
        184 + february
    } else if month == 9 {
        215 + february
    } else if month == 10 {
        245 + february
    } else if month == 11 {
        276 + february
    } else if month == 12 {
        306 + february
    } else {
        337 + february
    }
}

/// A date of the calendar lies within its year: it comes no earlier than the
/// year's first day and before the first day of the next year.
pub proof fn lemma_day_index_within_year(year: int, month: int, day: int)
    requires
        valid_date(year, month, day),
    ensures
        days_before_year(year) <= day_index(year, month, day) < days_before_year(year + 1),
        0 <= day_index(year, month, day) < CALENDAR_DAYS,
{
    lemma_days_before_month_table(year);
    lemma_days_before_year_grows(0, year);
    lemma_days_before_year_grows(year + 1, MAX_YEAR + 1);
    lemma_days_before_year_closed_form(MAX_YEAR + 1);
}

/// A date of the calendar lies within its month.
pub proof fn lemma_day_index_within_month(year: int, month: int, day: int)
    requires
        valid_date(year, month, day),
    ensures
        days_before_month(year, month) <= day_index(year, month, day) - days_before_year(year)
            < days_before_month(year, month + 1),
{
}

/// Months of one year start in their order.
pub proof fn lemma_days_before_month_grows(year: int, earlier: int, later: int)
    requires
        1 <= earlier <= later <= 13,
    ensures
        days_before_month(year, earlier) <= days_before_month(year, later),
        earlier < later ==> days_before_month(year, earlier + 1) <= days_before_month(
            year,
            later,
        ),
{
    lemma_days_before_month_table(year);
}

/// Two dates of the calendar with the same day index are the same date.
pub proof fn lemma_day_index_injective(
    year: int,
    month: int,
    day: int,
    other_year: int,
    other_month: int,
    other_day: int,
)
    requires
        valid_date(year, month, day),
        valid_date(other_year, other_month, other_day),
        day_index(year, month, day) == day_index(other_year, other_month, other_day),
    ensures
        year == other_year,
        month == other_month,
        day == other_day,
{
    lemma_day_index_within_year(year, month, day);
    lemma_day_index_within_year(other_year, other_month, other_day);
    if year < other_year {
        lemma_days_before_year_grows(year + 1, other_year);
    }
    if other_year < year {
        lemma_days_before_year_grows(other_year + 1, year);
    }
    lemma_day_index_within_month(year, month, day);
    lemma_day_index_within_month(other_year, other_month, other_day);
    if month < other_month {
        lemma_days_before_month_grows(year, month, other_month);
    }
    if other_month < month {
        lemma_days_before_month_grows(year, other_month, month);
    }
}

/// The number of days from 0000-01-01 to the given date.
pub(crate) fn day_index_of(year: u16, month: u8, day: u8) -> (r: u32)
    requires
        valid_date(year as int, month as int, day as int),
    ensures
        r == day_index(year as int, month as int, day as int),
        r < CALENDAR_DAYS,
{
    proof {
        lemma_day_index_within_year(year as int, month as int, day as int);
    }
    year_start(year) + month_start(year, month) + (day as u32 - 1)
}

/// The date that lies `index` days after 0000-01-01.
#[verifier::rlimit(40)]
pub(crate) fn date_at(index: u32) -> (r: (u16, u8, u8))
    requires
        index < CALENDAR_DAYS,
    ensures
        valid_date(r.0 as int, r.1 as int, r.2 as int),
        day_index(r.0 as int, r.1 as int, r.2 as int) == index,
{
    let mut year: u16 = if index < 3 {
        0
    } else {
        ((4 * index - 3) / 1461) as u16
    };
    proof {
        lemma_days_before_year_closed_form(year as int);
        lemma_days_before_year_closed_form(MAX_YEAR + 1);
    }
    while year < MAX_YEAR && year_start(year + 1) <= index
        invariant
            year <= MAX_YEAR,
            days_before_year(year as int) <= index < days_before_year(MAX_YEAR + 1),
        decreases MAX_YEAR - year,
    {
        year = year + 1;
    }
    let in_year: u32 = index - year_start(year);
    let mut month: u8 = 1;
    proof {
        lemma_days_before_month_table(year as int);
    }
    while month < 12 && month_start(year, month + 1) <= in_year
        invariant
            1 <= month <= 12,
            days_before_month(year as int, month as int) <= in_year,
            in_year < days_in_year(year as int),
            days_before_month(year as int, 13) == days_in_year(year as int),
        decreases 12 - month,
    {
        month = month + 1;
    }
    let day: u8 = (in_year - month_start(year, month) + 1) as u8;
    (year, month, day)
}

/// Two civil dates and times of the calendar with the same seconds count are
/// the same.
pub proof fn lemma_civil_seconds_injective(
    year: int,
    month: int,
    day: int,
    hour: int,
    minute: int,
    second: int,
    other_year: int,
    other_month: int,
    other_day: int,
    other_hour: int,
    other_minute: int,
    other_second: int,
)
    requires
        valid_date(year, month, day),
        valid_time(hour, minute, second),
        valid_date(other_year, other_month, other_day),
        valid_time(other_hour, other_minute, other_second),
        civil_seconds(year, month, day, hour, minute, second) == civil_seconds(
            other_year,
            other_month,
            other_day,
            other_hour,
            other_minute,
            other_second,
        ),
    ensures
        year == other_year,
        month == other_month,
        day == other_day,
        hour == other_hour,
        minute == other_minute,
        second == other_second,
{
    lemma_day_index_injective(year, month, day, other_year, other_month, other_day);
}

/// The seconds count of a civil date and time.
pub(crate) fn seconds_of(year: u16, month: u8, day: u8, hour: u8, minute: u8, second: u8) -> (r:
    i64)
    requires
        valid_date(year as int, month as int, day as int),
        valid_time(hour as int, minute as int, second as int),
    ensures
        r == civil_seconds(
            year as int,
            month as int,
            day as int,
            hour as int,
            minute as int,
            second as int,
        ),
        CIVIL_MIN_SECONDS <= r <= CIVIL_MAX_SECONDS,
{
    let days: i64 = day_index_of(year, month, day) as i64 - UNIX_EPOCH_DAY as i64;
    days * 86_400 + (hour as i64 * 3600 + minute as i64 * 60 + second as i64)
}

/// Splits a seconds count into the index of its day and the second of that
/// day.
pub(crate) fn split_seconds(seconds: i64) -> (r: (u32, u32))
    requires
        CIVIL_MIN_SECONDS <= seconds <= CIVIL_MAX_SECONDS,
    ensures
        r.0 < CALENDAR_DAYS,
        r.1 < SECONDS_PER_DAY,
        seconds == (r.0 - UNIX_EPOCH_DAY) * SECONDS_PER_DAY + r.1,
{
    let shifted: u64 = (seconds + UNIX_EPOCH_SECOND) as u64;
    ((shifted / 86_400) as u32, (shifted % 86_400) as u32)
}

/// Every day index within the calendar belongs to a date: the result is one.
pub proof fn lemma_date_exists(index: int) -> (r: (int, int, int))
    requires
        0 <= index < CALENDAR_DAYS,
    ensures
        valid_date(r.0, r.1, r.2),
        day_index(r.0, r.1, r.2) == index,
    decreases index,
{
    if index == 0 {
        lemma_days_before_month_table(0);
        (0, 1, 1)
    } else {
        let (year, month, day) = lemma_date_exists(index - 1);
        lemma_days_before_month_table(year);
        if day < days_in_month(year, month) {
            (year, month, day + 1)
        } else if month < 12 {
            (year, month + 1, 1)
        } else {
            lemma_days_before_month_table(year + 1);
            lemma_days_before_year_grows(year + 1, MAX_YEAR + 1);
            lemma_days_before_year_closed_form(MAX_YEAR + 1);
            (year + 1, 1, 1)
        }
    }
}

/// The day indexes of the two days on either side of the calendar.
pub proof fn lemma_day_index_beside_calendar()
    ensures
        day_index(-1, 12, 30) == -2,
        day_index(-1, 12, 31) == -1,
        day_index(MAX_YEAR + 1, 1, 1) == CALENDAR_DAYS,
        day_index(MAX_YEAR + 1, 1, 2) == CALENDAR_DAYS + 1,
{
    lemma_days_before_month_table(-1);
    lemma_days_before_month_table(MAX_YEAR + 1);
    lemma_days_before_year_closed_form(MAX_YEAR + 1);
    assert(days_before_year(-1) == days_before_year(0) - days_in_year(-1));
}

/// Two days that a clock can show with the same day index are the same day.
pub proof fn lemma_shown_day_index_injective(
    year: int,
    month: int,
    day: int,
    other_year: int,
    other_month: int,
    other_day: int,
)
    requires
        shown_date(year, month, day),
        shown_date(other_year, other_month, other_day),
        day_index(year, month, day) == day_index(other_year, other_month, other_day),
    ensures
        year == other_year,
        month == other_month,
        day == other_day,
{
    lemma_day_index_beside_calendar();
    if valid_date(year, month, day) {
        lemma_day_index_within_year(year, month, day);
    }
    if valid_date(other_year, other_month, other_day) {
        lemma_day_index_within_year(other_year, other_month, other_day);
    }
    if valid_date(year, month, day) && valid_date(other_year, other_month, other_day) {
        lemma_day_index_injective(year, month, day, other_year, other_month, other_day);
    }
}

} // verus!
