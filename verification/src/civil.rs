//! Civil dates and times of day: values that name a day of the calendar and a
//! second of the 24-hour clock, with no zone or offset attached.

use crate::calendar::{
    civil_seconds, date_at, lemma_civil_seconds_injective, lemma_date_exists,
    lemma_day_index_beside_calendar, lemma_day_index_within_year,
    lemma_shown_day_index_injective, month_length, seconds_of, shown_date, split_seconds,
    valid_date, valid_time, CIVIL_MAX_SECONDS, CIVIL_MIN_SECONDS, MAX_YEAR, SHOWN_MAX_SECONDS,
    SHOWN_MIN_SECONDS, UNIX_EPOCH_SECOND, CALENDAR_DAYS,
};
use vstd::prelude::*;

verus! {

/// The mathematical value of a calendar date.
pub struct Ymd {
    pub year: int,
    pub month: int,
    pub day: int,
}

/// The mathematical value of a time of day.
pub struct Hms {
    pub hour: int,
    pub minute: int,
    pub second: int,
}

/// The mathematical value of a date with a time of day.
pub struct Civil {
    pub date: Ymd,
    pub time: Hms,
}

impl Ymd {
    /// Whether this is a day of the calendar.
    pub open spec fn valid(self) -> bool {
        valid_date(self.year, self.month, self.day)
    }
}

impl Hms {
    /// Whether this is a time of the 24-hour clock.
    pub open spec fn valid(self) -> bool {
        valid_time(self.hour, self.minute, self.second)
    }
}

impl Civil {
    /// Whether both the date and the time of day exist.
    pub open spec fn valid(self) -> bool {
        self.date.valid() && self.time.valid()
    }

    /// Whether a clock and a calendar can show this: the time of day exists,
    /// and the day is one of the calendar or one of the two days on either
    /// side of it.
    pub open spec fn shown(self) -> bool {
        shown_date(self.date.year, self.date.month, self.date.day) && self.time.valid()
    }

    /// The number of seconds from 1970-01-01 00:00:00 to this date and time,
    /// read without any offset.
    pub open spec fn seconds(self) -> int {
        civil_seconds(
            self.date.year,
            self.date.month,
            self.date.day,
            self.time.hour,
            self.time.minute,
            self.time.second,
        )
    }
}

/// A day of the Gregorian calendar in the years 0000 to 9999.
#[derive(Clone, Copy, Debug, PartialEq, Eq)]
pub struct CalendarDate {
    year: u16,
    month: u8,
    day: u8,
}

impl View for CalendarDate {
    type V = Ymd;

    closed spec fn view(&self) -> Ymd {
        Ymd { year: self.year as int, month: self.month as int, day: self.day as int }
    }
}

impl CalendarDate {
    /// Every calendar date names a day that exists.
    #[verifier::type_invariant]
    pub open spec fn wf(self) -> bool {
        self@.valid()
    }

    /// The date with the given year, month and day, if that day exists.
    pub fn new(year: u16, month: u8, day: u8) -> (r: Option<CalendarDate>)
        ensures
            r is Some <==> valid_date(year as int, month as int, day as int),
            r matches Some(date) ==> date@ == (Ymd {
                year: year as int,
                month: month as int,
                day: day as int,
            }),
    {
        if year <= MAX_YEAR && 1 <= month && month <= 12 && 1 <= day && day <= month_length(
            year,
            month,
        ) {
            Some(CalendarDate { year, month, day })
        } else {
            None
        }
    }

    /// The year, from 0 to 9999.
    pub fn year(&self) -> (r: u16)
        ensures
            r == self@.year,
    {
        self.year
    }

    /// The month, from 1 to 12.
    pub fn month(&self) -> (r: u8)
        ensures
            r == self@.month,
    {
        self.month
    }

    /// The day of the month, from 1.
    pub fn day(&self) -> (r: u8)
        ensures
            r == self@.day,
    {
        self.day
    }
}

/// A time of the 24-hour clock, to the second.
#[derive(Clone, Copy, Debug, PartialEq, Eq)]
pub struct ClockTime {
    hour: u8,
    minute: u8,
    second: u8,
}

impl View for ClockTime {
    type V = Hms;

    closed spec fn view(&self) -> Hms {
        Hms { hour: self.hour as int, minute: self.minute as int, second: self.second as int }
    }
}

impl ClockTime {
    /// Every clock time names a second that exists on every day.
    #[verifier::type_invariant]
    pub open spec fn wf(self) -> bool {
        self@.valid()
    }

    /// The time with the given hour, minute and second, if the clock shows it.
    pub fn new(hour: u8, minute: u8, second: u8) -> (r: Option<ClockTime>)
        ensures
            r is Some <==> valid_time(hour as int, minute as int, second as int),
            r matches Some(time) ==> time@ == (Hms {
                hour: hour as int,
                minute: minute as int,
                second: second as int,
            }),
    {
        if hour < 24 && minute < 60 && second < 60 {
            Some(ClockTime { hour, minute, second })
        } else {
            None
        }
    }

    /// The hour, from 0 to 23.
    pub fn hour(&self) -> (r: u8)
        ensures
            r == self@.hour,
    {
        self.hour
    }

    /// The minute, from 0 to 59.
    pub fn minute(&self) -> (r: u8)
        ensures
            r == self@.minute,
    {
        self.minute
    }

    /// The second, from 0 to 59.
    pub fn second(&self) -> (r: u8)
        ensures
            r == self@.second,
    {
        self.second
    }
}

/// A calendar date with a time of day, and no offset or zone: what a clock on
/// the wall and a calendar beside it show.
#[derive(Clone, Copy, Debug, PartialEq, Eq)]
pub struct NaiveTimestamp {
    date: CalendarDate,
    time: ClockTime,
}

impl View for NaiveTimestamp {
    type V = Civil;

    closed spec fn view(&self) -> Civil {
        Civil { date: self.date@, time: self.time@ }
    }
}

impl NaiveTimestamp {
    /// Both parts of a timestamp exist.
    #[verifier::type_invariant]
    pub open spec fn wf(self) -> bool {
        self@.valid()
    }

    /// The given time of day on the given date.
    pub fn new(date: CalendarDate, time: ClockTime) -> (r: NaiveTimestamp)
        ensures
            r@ == (Civil { date: date@, time: time@ }),
    {
        proof {
            use_type_invariant(&date);
            use_type_invariant(&time);
        }
        NaiveTimestamp { date, time }
    }

    /// The timestamp with the given fields, if both the date and the time of
    /// day exist.
    pub fn from_parts(year: u16, month: u8, day: u8, hour: u8, minute: u8, second: u8) -> (r:
        Option<NaiveTimestamp>)
        ensures
            r is Some <==> valid_date(year as int, month as int, day as int) && valid_time(
                hour as int,
                minute as int,
                second as int,
            ),
            r matches Some(stamp) ==> stamp@ == (Civil {
                date: Ymd { year: year as int, month: month as int, day: day as int },
                time: Hms { hour: hour as int, minute: minute as int, second: second as int },
            }),
    {
        match CalendarDate::new(year, month, day) {
            Some(date) => match ClockTime::new(hour, minute, second) {
                Some(time) => Some(NaiveTimestamp::new(date, time)),
                None => None,
            },
            None => None,
        }
    }

    /// The calendar date.
    pub fn date(&self) -> (r: CalendarDate)
        ensures
            r@ == self@.date,
    {
        self.date
    }

    /// The time of day.
    pub fn time(&self) -> (r: ClockTime)
        ensures
            r@ == self@.time,
    {
        self.time
    }

    /// The number of seconds from 1970-01-01 00:00:00 to this timestamp, read
    /// without any offset.
    pub fn seconds(&self) -> (r: i64)
        ensures
            r == self@.seconds(),
            CIVIL_MIN_SECONDS <= r <= CIVIL_MAX_SECONDS,
    {
        proof {
            use_type_invariant(self);
        }
        seconds_of(
            self.date.year,
            self.date.month,
            self.date.day,
            self.time.hour,
            self.time.minute,
            self.time.second,
        )
    }

    /// The timestamp that lies the given number of seconds after 1970-01-01
    /// 00:00:00, if the calendar reaches that far.
    pub fn at_seconds(seconds: i64) -> (r: Option<NaiveTimestamp>)
        ensures
            r is Some <==> CIVIL_MIN_SECONDS <= seconds <= CIVIL_MAX_SECONDS,
            r matches Some(stamp) ==> stamp@ == civil_at(seconds as int) && stamp@.seconds()
                == seconds,
    {
        if seconds < CIVIL_MIN_SECONDS || seconds > CIVIL_MAX_SECONDS {
            None
        } else {
            Some(NaiveTimestamp::within_calendar(seconds))
        }
    }

    /// The timestamp that lies the given number of seconds after 1970-01-01
    /// 00:00:00, where the calendar reaches that far.
    pub(crate) fn within_calendar(seconds: i64) -> (r: NaiveTimestamp)
        requires
            CIVIL_MIN_SECONDS <= seconds <= CIVIL_MAX_SECONDS,
        ensures
            r@ == civil_at(seconds as int),
            r@.seconds() == seconds,
    {
        let (index, rest) = split_seconds(seconds);
        let (year, month, day) = date_at(index);
        let hour: u8 = (rest / 3600) as u8;
        let minute: u8 = (rest % 3600 / 60) as u8;
        let second: u8 = (rest % 60) as u8;
        let stamp = NaiveTimestamp {
            date: CalendarDate { year, month, day },
            time: ClockTime { hour, minute, second },
        };
        proof {
            lemma_civil_at_seconds(stamp@);
        }
        stamp
    }
}

/// The civil date and time that lies `seconds` after 1970-01-01 00:00:00.
pub open spec fn civil_at(seconds: int) -> Civil {
    choose|c: Civil| c.valid() && c.seconds() == seconds
}

/// A civil date and time is determined by its seconds count: two that exist
/// and lie the same number of seconds after 1970-01-01 00:00:00 are equal.
pub proof fn lemma_seconds_determine_civil(a: Civil, b: Civil)
    requires
        a.valid(),
        b.valid(),
        a.seconds() == b.seconds(),
    ensures
        a == b,
{
    lemma_civil_seconds_injective(
        a.date.year,
        a.date.month,
        a.date.day,
        a.time.hour,
        a.time.minute,
        a.time.second,
        b.date.year,
        b.date.month,
        b.date.day,
        b.time.hour,
        b.time.minute,
        b.time.second,
    );
}

/// A civil date and time that exists is the one found at its seconds count.
pub proof fn lemma_civil_at_seconds(a: Civil)
    requires
        a.valid(),
    ensures
        civil_at(a.seconds()) == a,
{
    lemma_seconds_determine_civil(a, civil_at(a.seconds()));
}

/// At every seconds count within the calendar's range lies a civil date and
/// time that exists.
#[verifier::rlimit(40)]
pub proof fn lemma_civil_at_exists(seconds: int)
    requires
        CIVIL_MIN_SECONDS <= seconds <= CIVIL_MAX_SECONDS,
    ensures
        civil_at(seconds).valid(),
        civil_at(seconds).seconds() == seconds,
{
    let shifted = seconds + UNIX_EPOCH_SECOND;
    let index = shifted / 86_400;
    let rest = shifted % 86_400;
    let (year, month, day) = lemma_date_exists(index);
    let found = Civil {
        date: Ymd { year, month, day },
        time: Hms { hour: rest / 3600, minute: rest % 3600 / 60, second: rest % 60 },
    };
    assert(found.valid() && found.seconds() == seconds);
}

/// The date and time that a clock and a calendar show `seconds` after
/// 1970-01-01 00:00:00, within the calendar or on the two days on either side
/// of it.
pub open spec fn shown_at(seconds: int) -> Civil {
    choose|c: Civil| c.shown() && c.seconds() == seconds
}

/// What a clock and a calendar show is determined by its seconds count.
pub proof fn lemma_seconds_determine_shown(a: Civil, b: Civil)
    requires
        a.shown(),
        b.shown(),
        a.seconds() == b.seconds(),
    ensures
        a == b,
{
    lemma_shown_day_index_injective(
        a.date.year,
        a.date.month,
        a.date.day,
        b.date.year,
        b.date.month,
        b.date.day,
    );
}

/// What a clock and a calendar show is what is found at its seconds count.
pub proof fn lemma_shown_at_seconds(a: Civil)
    requires
        a.shown(),
    ensures
        shown_at(a.seconds()) == a,
{
    lemma_seconds_determine_shown(a, shown_at(a.seconds()));
}

/// At every seconds count from two days before the calendar to two days
/// after it, a clock and a calendar show a date and time; within the calendar
/// it is a date and time of the calendar.
#[verifier::rlimit(40)]
pub proof fn lemma_shown_at_exists(seconds: int)
    requires
        SHOWN_MIN_SECONDS <= seconds <= SHOWN_MAX_SECONDS,
    ensures
        shown_at(seconds).shown(),
        shown_at(seconds).seconds() == seconds,
        CIVIL_MIN_SECONDS <= seconds <= CIVIL_MAX_SECONDS ==> shown_at(seconds) == civil_at(
            seconds,
        ),
        shown_at(seconds).valid() <==> CIVIL_MIN_SECONDS <= seconds <= CIVIL_MAX_SECONDS,
{
    lemma_day_index_beside_calendar();
    if CIVIL_MIN_SECONDS <= seconds <= CIVIL_MAX_SECONDS {
        lemma_civil_at_exists(seconds);
        lemma_shown_at_seconds(civil_at(seconds));
    } else {
        let shifted = seconds + UNIX_EPOCH_SECOND;
        let index = shifted / 86_400;
        let rest = shifted % 86_400;
        let date = if index == -2 {
            Ymd { year: -1, month: 12, day: 30 }
        } else if index == -1 {
            Ymd { year: -1, month: 12, day: 31 }
        } else if index == CALENDAR_DAYS {
            Ymd { year: MAX_YEAR + 1, month: 1, day: 1 }
        } else {
            Ymd { year: MAX_YEAR + 1, month: 1, day: 2 }
        };
        let found = Civil {
            date,
            time: Hms { hour: rest / 3600, minute: rest % 3600 / 60, second: rest % 60 },
        };
        assert(found.shown() && found.seconds() == seconds);
        lemma_shown_at_seconds(found);
        if found.valid() {
            lemma_day_index_within_year(found.date.year, found.date.month, found.date.day);
        }
    }
}

/// What a clock and a calendar show at an instant, in some zone: a date of the
/// calendar or one of the two days on either side of it, with a time of day.
#[derive(Clone, Copy, Debug, PartialEq, Eq)]
pub struct ShownTimestamp {
    year: i32,
    month: u8,
    day: u8,
    time: ClockTime,
}

impl View for ShownTimestamp {
    type V = Civil;

    closed spec fn view(&self) -> Civil {
        Civil {
            date: Ymd { year: self.year as int, month: self.month as int, day: self.day as int },
            time: self.time@,
        }
    }
}

impl ShownTimestamp {
    /// The date is one that a calendar can show, and the time of day exists.
    #[verifier::type_invariant]
    pub open spec fn wf(self) -> bool {
        self@.shown()
    }

    /// The given time of day on the given day, if a calendar can show that
    /// day.
    pub fn new(year: i32, month: u8, day: u8, time: ClockTime) -> (r: Option<ShownTimestamp>)
        ensures
            r is Some <==> shown_date(year as int, month as int, day as int),
            r matches Some(stamp) ==> stamp@ == (Civil {
                date: Ymd { year: year as int, month: month as int, day: day as int },
                time: time@,
            }),
    {
        proof {
            use_type_invariant(&time);
        }
        let shown: bool = if 0 <= year && year <= 9999 {
            CalendarDate::new(year as u16, month, day).is_some()
        } else if year == -1 {
            month == 12 && (day == 30 || day == 31)
        } else if year == 10000 {
            month == 1 && (day == 1 || day == 2)
        } else {
            false
        };
        if shown {
            Some(ShownTimestamp { year, month, day, time })
        } else {
            None
        }
    }

    /// The year: from 0 to 9999, or -1 or 10000 on the days beside the
    /// calendar.
    pub fn year(&self) -> (r: i32)
        ensures
            r == self@.date.year,
    {
        self.year
    }

    /// The month, from 1 to 12.
    pub fn month(&self) -> (r: u8)
        ensures
            r == self@.date.month,
    {
        self.month
    }

    /// The day of the month, from 1.
    pub fn day(&self) -> (r: u8)
        ensures
            r == self@.date.day,
    {
        self.day
    }

    /// The time of day.
    pub fn time(&self) -> (r: ClockTime)
        ensures
            r@ == self@.time,
    {
        self.time
    }

    /// The same date and time as a timestamp of the calendar.
    pub fn from_naive(stamp: &NaiveTimestamp) -> (r: ShownTimestamp)
        ensures
            r@ == stamp@,
    {
        proof {
            use_type_invariant(stamp);
            use_type_invariant(&stamp.date);
            use_type_invariant(&stamp.time);
        }
        ShownTimestamp {
            year: stamp.date.year as i32,
            month: stamp.date.month,
            day: stamp.date.day,
            time: stamp.time,
        }
    }

    /// The same date and time as a timestamp of the calendar, if the date is
    /// one of the calendar.
    pub fn naive(&self) -> (r: Option<NaiveTimestamp>)
        ensures
            r is Some <==> self@.valid(),
            r matches Some(stamp) ==> stamp@ == self@,
    {
        proof {
            use_type_invariant(self);
            use_type_invariant(&self.time);
        }
        if 0 <= self.year && self.year <= 9999 {
            let date = CalendarDate { year: self.year as u16, month: self.month, day: self.day };
            Some(NaiveTimestamp { date, time: self.time })
        } else {
            None
        }
    }

    /// The number of seconds from 1970-01-01 00:00:00 to this date and time,
    /// read without any offset.
    pub fn seconds(&self) -> (r: i64)
        ensures
            r == self@.seconds(),
            SHOWN_MIN_SECONDS <= r <= SHOWN_MAX_SECONDS,
    {
        proof {
            use_type_invariant(self);
            use_type_invariant(&self.time);
            lemma_day_index_beside_calendar();
        }
        let of_day: i64 = self.time.hour as i64 * 3600 + self.time.minute as i64 * 60
            + self.time.second as i64;
        if self.year < 0 {
            (self.day as i64 - 32 - 719_528) * 86_400 + of_day
        } else if self.year > 9999 {
            (3_652_424 + self.day as i64 - 719_528) * 86_400 + of_day
        } else {
            seconds_of(
                self.year as u16,
                self.month,
                self.day,
                self.time.hour,
                self.time.minute,
                self.time.second,
            )
        }
    }

    /// What a clock and a calendar show the given number of seconds after
    /// 1970-01-01 00:00:00.
    pub(crate) fn within_reach(seconds: i64) -> (r: ShownTimestamp)
        requires
            SHOWN_MIN_SECONDS <= seconds <= SHOWN_MAX_SECONDS,
        ensures
            r@ == shown_at(seconds as int),
            r@.seconds() == seconds,
    {
        proof {
            lemma_day_index_beside_calendar();
        }
        let stamp = if seconds < CIVIL_MIN_SECONDS {
            let rest: i64 = seconds - SHOWN_MIN_SECONDS;
            let day: u8 = if rest < 86_400 {
                30
            } else {
                31
            };
            let time = ClockTime::of_day(rest % 86_400);
            ShownTimestamp { year: -1, month: 12, day, time }
        } else if seconds > CIVIL_MAX_SECONDS {
            let rest: i64 = seconds - CIVIL_MAX_SECONDS - 1;
            let day: u8 = if rest < 86_400 {
                1
            } else {
                2
            };
            let time = ClockTime::of_day(rest % 86_400);
            ShownTimestamp { year: 10000, month: 1, day, time }
        } else {
            ShownTimestamp::from_naive(&NaiveTimestamp::within_calendar(seconds))
        };
        proof {
            use_type_invariant(&stamp);
            lemma_shown_at_seconds(stamp@);
        }
        stamp
    }
}

impl ClockTime {
    /// The time of day that lies `rest` seconds after midnight.
    pub(crate) fn of_day(rest: i64) -> (r: ClockTime)
        requires
            0 <= rest < 86_400,
        ensures
            r@.valid(),
            r@.hour * 3600 + r@.minute * 60 + r@.second == rest,
    {
        ClockTime {
            hour: (rest / 3600) as u8,
            minute: (rest % 3600 / 60) as u8,
            second: (rest % 60) as u8,
        }
    }
}

} // verus!
