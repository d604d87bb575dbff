//! Reading a civil date and time from the text of two input fields, and
//! writing them back in the same form.
//!
//! A date is written `YYYY-MM-DD`. A time of day is written `HH:MM:SS`, or
//! `HH:MM` for the start of a minute. Nothing else is read: no sign, no space,
//! no shorter or longer run of digits.

use crate::calendar::shown_date;
use crate::civil::{CalendarDate, Civil, ClockTime, Hms, NaiveTimestamp, ShownTimestamp, Ymd};
use crate::text::{
    ascii_at, ascii_len, four_digit_text, four_digits, four_digits_at, has_four_digits,
    has_two_digits, lemma_four_digit_text_reads, lemma_four_digits_are_written,
    lemma_two_digit_text_reads, lemma_two_digits_are_written, push_four_digits, push_two_digits,
    two_digit_text, two_digits, two_digits_at, COLON, DIGIT_ONE, HYPHEN, PLUS,
};
use vstd::utf8::is_ascii_chars;
use vstd::prelude::*;

verus! {

/// Why a text was not read.
#[derive(Clone, Copy, Debug, PartialEq, Eq)]
pub enum ParseError {
    /// The text does not have the form asked for, or has it and names a date
    /// or a time of day that does not exist.
    Malformed,
}

/// Whether `s` has the form `YYYY-MM-DD`.
pub open spec fn date_shape(s: Seq<char>) -> bool {
    &&& s.len() == 10
    &&& has_four_digits(s, 0)
    &&& s[4] == '-'
    &&& has_two_digits(s, 5)
    &&& s[7] == '-'
    &&& has_two_digits(s, 8)
}

/// Whether `s` has the form `HH:MM:SS`.
pub open spec fn long_time_shape(s: Seq<char>) -> bool {
    &&& s.len() == 8
    &&& has_two_digits(s, 0)
    &&& s[2] == ':'
    &&& has_two_digits(s, 3)
    &&& s[5] == ':'
    &&& has_two_digits(s, 6)
}

/// Whether `s` has the form `HH:MM`.
pub open spec fn short_time_shape(s: Seq<char>) -> bool {
    &&& s.len() == 5
    &&& has_two_digits(s, 0)
    &&& s[2] == ':'
    &&& has_two_digits(s, 3)
}

/// The date that `s` names, if `s` has the form of a date and the day exists.
pub open spec fn date_of_text(s: Seq<char>) -> Option<Ymd> {
    let date = Ymd { year: four_digits(s, 0), month: two_digits(s, 5), day: two_digits(s, 8) };
    if date_shape(s) && date.valid() {
        Some(date)
    } else {
        None
    }
}

/// The time of day that `s` names, if `s` has one of the two forms of a time
/// and the clock shows it. The short form names second 0.
pub open spec fn time_of_text(s: Seq<char>) -> Option<Hms> {
    let second = if long_time_shape(s) {
        two_digits(s, 6)
    } else {
        0
    };
    let time = Hms { hour: two_digits(s, 0), minute: two_digits(s, 3), second };
    if (long_time_shape(s) || short_time_shape(s)) && time.valid() {
        Some(time)
    } else {
        None
    }
}

/// The civil date and time that the two texts name, if both are read.
pub open spec fn timestamp_of_text(date: Seq<char>, time: Seq<char>) -> Option<Civil> {
    match (date_of_text(date), time_of_text(time)) {
        (Some(d), Some(t)) => Some(Civil { date: d, time: t }),
        _ => None,
    }
}

/// A date written as `YYYY-MM-DD`.
pub open spec fn date_text(date: Ymd) -> Seq<char> {
    four_digit_text(date.year) + seq!['-'] + two_digit_text(date.month) + seq!['-']
        + two_digit_text(date.day)
}

/// A time of day written as `HH:MM:SS`.
pub open spec fn time_text(time: Hms) -> Seq<char> {
    two_digit_text(time.hour) + seq![':'] + two_digit_text(time.minute) + seq![':']
        + two_digit_text(time.second)
}

/// The hour and minute of a time of day written as `HH:MM`.
pub open spec fn short_time_text(time: Hms) -> Seq<char> {
    two_digit_text(time.hour) + seq![':'] + two_digit_text(time.minute)
}

/// Reads a date of the form `YYYY-MM-DD`.
pub fn parse_date(text: &str) -> (r: Result<CalendarDate, ParseError>)
    ensures
        match date_of_text(text@) {
            Some(d) => r matches Ok(date) && date@ == d,
            None => r == Err::<CalendarDate, ParseError>(ParseError::Malformed),
        },
{
    let len: usize = match ascii_len(text) {
        Some(n) => n,
        None => {
            return Err(ParseError::Malformed);
        },
    };
    if len != 10 {
        return Err(ParseError::Malformed);
    }
    if ascii_at(text, 4) != HYPHEN || ascii_at(text, 7) != HYPHEN {
        return Err(ParseError::Malformed);
    }
    let year: u16 = match four_digits_at(text, 0) {
        Some(n) => n,
        None => {
            return Err(ParseError::Malformed);
        },
    };
    let month: u8 = match two_digits_at(text, 5) {
        Some(n) => n,
        None => {
            return Err(ParseError::Malformed);
        },
    };
    let day: u8 = match two_digits_at(text, 8) {
        Some(n) => n,
        None => {
            return Err(ParseError::Malformed);
        },
    };
    match CalendarDate::new(year, month, day) {
        Some(date) => Ok(date),
        None => Err(ParseError::Malformed),
    }
}

/// Reads a time of day of the form `HH:MM:SS` or `HH:MM`.
pub fn parse_time(text: &str) -> (r: Result<ClockTime, ParseError>)
    ensures
        match time_of_text(text@) {
            Some(t) => r matches Ok(time) && time@ == t,
            None => r == Err::<ClockTime, ParseError>(ParseError::Malformed),
        },
{
    let len: usize = match ascii_len(text) {
        Some(n) => n,
        None => {
            return Err(ParseError::Malformed);
        },
    };
    if len != 8 && len != 5 {
        return Err(ParseError::Malformed);
    }
    if ascii_at(text, 2) != COLON {
        return Err(ParseError::Malformed);
    }
    let hour: u8 = match two_digits_at(text, 0) {
        Some(n) => n,
        None => {
            return Err(ParseError::Malformed);
        },
    };
    let minute: u8 = match two_digits_at(text, 3) {
        Some(n) => n,
        None => {
            return Err(ParseError::Malformed);
        },
    };
    let second: u8 = if len == 8 {
        if ascii_at(text, 5) != COLON {
            return Err(ParseError::Malformed);
        }
        match two_digits_at(text, 6) {
            Some(n) => n,
            None => {
                return Err(ParseError::Malformed);
            },
        }
    } else {
        0
    };
    match ClockTime::new(hour, minute, second) {
        Some(time) => Ok(time),
        None => Err(ParseError::Malformed),
    }
}

/// Reads a date and a time of day from the text of the two fields.
///
/// Both texts are read anew on every call; an empty text is malformed like
/// any other text that is not a date or a time.
pub fn parse(date: &str, time: &str) -> (r: Result<NaiveTimestamp, ParseError>)
    ensures
        match timestamp_of_text(date@, time@) {
            Some(c) => r matches Ok(stamp) && stamp@ == c,
            None => r == Err::<NaiveTimestamp, ParseError>(ParseError::Malformed),
        },
{
    match parse_date(date) {
        Ok(d) => match parse_time(time) {
            Ok(t) => Ok(NaiveTimestamp::new(d, t)),
            Err(e) => Err(e),
        },
        Err(e) => Err(e),
    }
}

impl CalendarDate {
    /// The date written as `YYYY-MM-DD`.
    pub fn to_text(&self) -> (r: String)
        ensures
            r@ == date_text(self@),
    {
        proof {
            use_type_invariant(self);
            reveal_strlit("-");
        }
        let mut out = String::new();
        push_four_digits(&mut out, self.year());
        out.append("-");
        push_two_digits(&mut out, self.month());
        out.append("-");
        push_two_digits(&mut out, self.day());
        assert(out@ =~= date_text(self@));
        out
    }
}

impl ClockTime {
    /// The time of day written as `HH:MM:SS`.
    pub fn to_text(&self) -> (r: String)
        ensures
            r@ == time_text(self@),
    {
        proof {
            use_type_invariant(self);
            reveal_strlit(":");
        }
        let mut out = String::new();
        push_two_digits(&mut out, self.hour());
        out.append(":");
        push_two_digits(&mut out, self.minute());
        out.append(":");
        push_two_digits(&mut out, self.second());
        assert(out@ =~= time_text(self@));
        out
    }
}

/// A date that exists is read back from its text.
pub proof fn lemma_date_text_is_read(date: Ymd)
    requires
        date.valid(),
    ensures
        date_of_text(date_text(date)) == Some(date),
{
    lemma_four_digit_text_reads(date.year);
    lemma_two_digit_text_reads(date.month);
    lemma_two_digit_text_reads(date.day);
}

/// A time of day that exists is read back from its text, and from its short
/// text where the second is 0.
pub proof fn lemma_time_text_is_read(time: Hms)
    requires
        time.valid(),
    ensures
        time_of_text(time_text(time)) == Some(time),
        time.second == 0 ==> time_of_text(short_time_text(time)) == Some(time),
{
    lemma_two_digit_text_reads(time.hour);
    lemma_two_digit_text_reads(time.minute);
    lemma_two_digit_text_reads(time.second);
}

/// A text that is read as a date is that date's text: a date has one
/// spelling.
pub proof fn lemma_read_date_is_its_text(s: Seq<char>)
    requires
        date_of_text(s) is Some,
    ensures
        s == date_text(date_of_text(s)->0),
{
    lemma_four_digits_are_written(s, 0);
    lemma_two_digits_are_written(s, 5);
    lemma_two_digits_are_written(s, 8);
    assert(s =~= s.subrange(0, 4) + seq!['-'] + s.subrange(5, 7) + seq!['-'] + s.subrange(8, 10));
}

/// A text that is read as a time of day is that time's text or, with second
/// 0, its short text: a time has no other spelling.
pub proof fn lemma_read_time_is_its_text(s: Seq<char>)
    requires
        time_of_text(s) is Some,
    ensures
        s == time_text(time_of_text(s)->0) || (time_of_text(s)->0.second == 0 && s
            == short_time_text(time_of_text(s)->0)),
{
    lemma_two_digits_are_written(s, 0);
    lemma_two_digits_are_written(s, 3);
    if long_time_shape(s) {
        lemma_two_digits_are_written(s, 6);
        assert(s =~= s.subrange(0, 2) + seq![':'] + s.subrange(3, 5) + seq![':'] + s.subrange(
            6,
            8,
        ));
    } else {
        assert(s =~= s.subrange(0, 2) + seq![':'] + s.subrange(3, 5));
    }
}

/// Every civil date and time that exists is read from its two texts, each
/// field as it was written; a time at second 0 is read from its short text
/// too.
pub proof fn lemma_parse_reads_what_was_written(stamp: Civil)
    requires
        stamp.valid(),
    ensures
        timestamp_of_text(date_text(stamp.date), time_text(stamp.time)) == Some(stamp),
        stamp.time.second == 0 ==> timestamp_of_text(
            date_text(stamp.date),
            short_time_text(stamp.time),
        ) == Some(stamp),
{
    lemma_date_text_is_read(stamp.date);
    lemma_time_text_is_read(stamp.time);
}

/// A date that a calendar can show, as text: a date of the calendar as
/// `YYYY-MM-DD`, a date of the year before year 0 with the year as `-0001`,
/// and a date of the year 10000 with the year as `+10000`.
pub open spec fn shown_date_text(date: Ymd) -> Seq<char> {
    if date.year < 0 {
        seq!['-'] + date_text(Ymd { year: -date.year, month: date.month, day: date.day })
    } else if date.year > 9999 {
        seq!['+', '1'] + date_text(
            Ymd { year: date.year - 10000, month: date.month, day: date.day },
        )
    } else {
        date_text(date)
    }
}

/// The date that `s` names among those that a calendar can show, if it names
/// one in the form of `shown_date_text`.
pub open spec fn shown_date_of_text(s: Seq<char>) -> Option<Ymd> {
    if s.len() == 11 && s[0] == '-' {
        let rest = date_of_text(s.subrange(1, 11));
        if rest is Some && shown_date(-rest->0.year, rest->0.month, rest->0.day) && rest->0.year
            > 0 {
            Some(Ymd { year: -rest->0.year, month: rest->0.month, day: rest->0.day })
        } else {
            None
        }
    } else if s.len() == 12 && s[0] == '+' && s[1] == '1' {
        let rest = date_of_text(s.subrange(2, 12));
        if rest is Some && shown_date(rest->0.year + 10000, rest->0.month, rest->0.day) {
            Some(Ymd { year: rest->0.year + 10000, month: rest->0.month, day: rest->0.day })
        } else {
            None
        }
    } else {
        date_of_text(s)
    }
}

/// Reads a date that a calendar can show: year, month and day.
#[verifier::rlimit(40)]
pub(crate) fn read_shown_date(text: &str) -> (r: Option<(i32, u8, u8)>)
    requires
        is_ascii_chars(text@),
    ensures
        match shown_date_of_text(text@) {
            Some(d) => r == Some((d.year as i32, d.month as u8, d.day as u8)) && shown_date(
                d.year,
                d.month,
                d.day,
            ),
            None => r is None,
        },
{
    let len: usize = match ascii_len(text) {
        Some(n) => n,
        None => {
            return None;
        },
    };
    if len == 11 && ascii_at(text, 0) == HYPHEN {
        match parse_date(text.substring_ascii(1, 11)) {
            Ok(date) => {
                if date.year() == 1 && date.month() == 12 && date.day() >= 30 {
                    Some((-1, 12, date.day()))
                } else {
                    None
                }
            },
            Err(_) => None,
        }
    } else if len == 12 && ascii_at(text, 0) == PLUS && ascii_at(text, 1) == DIGIT_ONE {
        match parse_date(text.substring_ascii(2, 12)) {
            Ok(date) => {
                if date.year() == 0 && date.month() == 1 && date.day() <= 2 {
                    Some((10000, 1, date.day()))
                } else {
                    None
                }
            },
            Err(_) => None,
        }
    } else {
        match parse_date(text) {
            Ok(date) => {
                proof {
                    use_type_invariant(&date);
                }
                Some((date.year() as i32, date.month(), date.day()))
            },
            Err(_) => None,
        }
    }
}

impl ShownTimestamp {
    /// The date as text: `YYYY-MM-DD` within the calendar, with the year as
    /// `-0001` or `+10000` beside it.
    pub fn date_text(&self) -> (r: String)
        ensures
            r@ == shown_date_text(self@.date),
    {
        proof {
            use_type_invariant(self);
            reveal_strlit("-");
            reveal_strlit("+1");
        }
        let year: i32 = self.year();
        let mut out = String::new();
        let shown: u16 = if year < 0 {
            out.append("-");
            (-year) as u16
        } else if year > 9999 {
            out.append("+1");
            (year - 10000) as u16
        } else {
            year as u16
        };
        push_four_digits(&mut out, shown);
        out.append("-");
        push_two_digits(&mut out, self.month());
        out.append("-");
        push_two_digits(&mut out, self.day());
        assert(out@ =~= shown_date_text(self@.date));
        out
    }
}

/// A date that a calendar can show is read back from its text.
pub proof fn lemma_shown_date_text_is_read(date: Ymd)
    requires
        shown_date(date.year, date.month, date.day),
    ensures
        shown_date_of_text(shown_date_text(date)) == Some(date),
{
    let s = shown_date_text(date);
    if date.year < 0 {
        let inner = Ymd { year: -date.year, month: date.month, day: date.day };
        lemma_date_text_is_read(inner);
        assert(s.subrange(1, 11) =~= date_text(inner));
    } else if date.year > 9999 {
        let inner = Ymd { year: date.year - 10000, month: date.month, day: date.day };
        lemma_date_text_is_read(inner);
        assert(s.subrange(2, 12) =~= date_text(inner));
    } else {
        lemma_date_text_is_read(date);
    }
}

/// A text that is read as a date that a calendar can show is that date's
/// text.
pub proof fn lemma_read_shown_date_is_its_text(s: Seq<char>)
    requires
        shown_date_of_text(s) is Some,
    ensures
        s == shown_date_text(shown_date_of_text(s)->0),
        shown_date(
            shown_date_of_text(s)->0.year,
            shown_date_of_text(s)->0.month,
            shown_date_of_text(s)->0.day,
        ),
{
    if s.len() == 11 && s[0] == '-' {
        lemma_read_date_is_its_text(s.subrange(1, 11));
        assert(s =~= seq!['-'] + s.subrange(1, 11));
    } else if s.len() == 12 && s[0] == '+' && s[1] == '1' {
        lemma_read_date_is_its_text(s.subrange(2, 12));
        assert(s =~= seq!['+', '1'] + s.subrange(2, 12));
    } else {
        lemma_read_date_is_its_text(s);
    }
}

/// A text that is read as a date that a calendar can show, and a text that is
/// read as a time of day, hold ASCII characters only.
#[verifier::rlimit(40)]
pub proof fn lemma_read_texts_are_ascii(s: Seq<char>)
    ensures
        shown_date_of_text(s) is Some ==> is_ascii_chars(s),
        time_of_text(s) is Some ==> is_ascii_chars(s),
{
    if shown_date_of_text(s) is Some {
        if s.len() == 11 && s[0] == '-' {
            let rest = s.subrange(1, 11);
            assert forall|i: int| 0 <= i < s.len() implies '\0' <= #[trigger] s[i] <= '\u{7f}' by {
                if i >= 1 {
                    assert(s[i] == rest[i - 1]);
                }
            }
        } else if s.len() == 12 && s[0] == '+' && s[1] == '1' {
            let rest = s.subrange(2, 12);
            assert forall|i: int| 0 <= i < s.len() implies '\0' <= #[trigger] s[i] <= '\u{7f}' by {
                if i >= 2 {
                    assert(s[i] == rest[i - 2]);
                }
            }
        }
    }
}

} // verus!
