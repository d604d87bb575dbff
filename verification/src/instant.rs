//! Points in time, and the one text in which a point in time is shared.
//!
//! An instant is a count of seconds from 1970-01-01 00:00:00 UTC. It belongs
//! to no zone. Its text is its UTC date and time to the second, with the
//! offset written out as `+00:00`: `2021-10-31T00:30:00+00:00`.

use crate::civil::{
    lemma_shown_at_exists, lemma_shown_at_seconds, shown_at, Civil, NaiveTimestamp,
    ShownTimestamp,
};
use crate::parser::{
    lemma_read_shown_date_is_its_text, lemma_read_texts_are_ascii, lemma_read_time_is_its_text,
    lemma_shown_date_text_is_read, lemma_time_text_is_read, parse_time, read_shown_date,
    shown_date_of_text, shown_date_text, time_of_text, time_text, ParseError,
};
use crate::text::{ascii_at, ascii_len, COLON, DIGIT_ZERO, LETTER_T, PLUS};
use vstd::prelude::*;

verus! {

/// The first instant: the first second that a clock anywhere can show as
/// 0000-01-01 00:00:00, a day less a second before UTC shows it.
pub const INSTANT_MIN_SECONDS: i64 = -62_167_305_599;

/// The last instant: the last second that a clock anywhere can show as
/// 9999-12-31 23:59:59, a day less a second after UTC shows it.
pub const INSTANT_MAX_SECONDS: i64 = 253_402_387_198;

/// Whether an instant lies `seconds` after 1970-01-01 00:00:00 UTC.
///
/// The instants are all that a date and time of the calendar can name in any
/// zone: the calendar's own seconds, and less than a day on either side, as
/// no zone is a day or more ahead of UTC or behind it.
pub open spec fn representable(seconds: int) -> bool {
    INSTANT_MIN_SECONDS <= seconds <= INSTANT_MAX_SECONDS
}

/// A point in time.
#[derive(Clone, Copy, Debug, PartialEq, Eq, PartialOrd, Ord)]
pub struct Instant {
    seconds: i64,
}

impl View for Instant {
    type V = int;

    closed spec fn view(&self) -> int {
        self.seconds as int
    }
}

/// The six characters that end the text of an instant.
pub open spec fn utc_suffix() -> Seq<char> {
    seq!['+', '0', '0', ':', '0', '0']
}

/// The text of the instant that lies `seconds` after 1970-01-01 00:00:00 UTC.
pub open spec fn instant_text(seconds: int) -> Seq<char> {
    shown_date_text(shown_at(seconds).date) + seq!['T'] + time_text(shown_at(seconds).time)
        + utc_suffix()
}

/// The seconds count of the instant that `s` is the text of, if it is the
/// text of one: a date, `T`, a time of day with its seconds, and `+00:00`.
pub open spec fn instant_of_text(s: Seq<char>) -> Option<int> {
    let n = s.len() as int;
    let date_part = s.subrange(0, n - 15);
    let time_part = s.subrange(n - 14, n - 6);
    if n >= 15 && s[n - 15] == 'T' && s.subrange(n - 6, n) == utc_suffix() {
        match (shown_date_of_text(date_part), time_of_text(time_part)) {
            (Some(date), Some(time)) => {
                let seconds = (Civil { date, time }).seconds();
                if representable(seconds) {
                    Some(seconds)
                } else {
                    None
                }
            },
            _ => None,
        }
    } else {
        None
    }
}

impl Instant {
    /// Every instant lies within the range of the instants.
    #[verifier::type_invariant]
    pub open spec fn wf(self) -> bool {
        representable(self@)
    }

    /// The instant that lies `seconds` after 1970-01-01 00:00:00 UTC, if
    /// there is one.
    pub fn from_seconds(seconds: i64) -> (r: Option<Instant>)
        ensures
            r is Some <==> representable(seconds as int),
            r matches Some(instant) ==> instant@ == seconds,
    {
        if INSTANT_MIN_SECONDS <= seconds && seconds <= INSTANT_MAX_SECONDS {
            Some(Instant { seconds })
        } else {
            None
        }
    }

    /// The instant that lies `seconds` after 1970-01-01 00:00:00 UTC.
    pub(crate) fn within_range(seconds: i64) -> (r: Instant)
        requires
            representable(seconds as int),
        ensures
            r@ == seconds,
    {
        Instant { seconds }
    }

    /// The number of seconds from 1970-01-01 00:00:00 UTC to this instant.
    pub fn seconds(&self) -> (r: i64)
        ensures
            r == self@,
            representable(r as int),
    {
        proof {
            use_type_invariant(self);
        }
        self.seconds
    }

    /// The instant at which UTC shows the given date and time.
    pub fn from_utc(stamp: &NaiveTimestamp) -> (r: Instant)
        ensures
            r@ == stamp@.seconds(),
    {
        Instant { seconds: stamp.seconds() }
    }

    /// The date and time that UTC shows at this instant.
    pub fn to_utc(&self) -> (r: ShownTimestamp)
        ensures
            r@ == shown_at(self@),
            r@.seconds() == self@,
    {
        ShownTimestamp::within_reach(self.seconds())
    }

    /// The text of this instant: its UTC date and time, then `+00:00`.
    pub fn serialize(&self) -> (r: String)
        ensures
            r@ == instant_text(self@),
    {
        proof {
            reveal_strlit("T");
            reveal_strlit("+00:00");
        }
        let stamp = self.to_utc();
        let mut out = stamp.date_text();
        out.append("T");
        let time = stamp.time().to_text();
        out.append(time.as_str());
        out.append("+00:00");
        assert(out@ =~= instant_text(self@));
        out
    }

    /// Reads the text of an instant.
    ///
    /// Only the text that `serialize` writes is read: a UTC date and time to
    /// the second, then `+00:00`. A text with another offset, or with `Z` in
    /// its place, is malformed, and so is one that names a second outside the
    /// range of the instants.
    #[verifier::rlimit(40)]
    pub fn parse(text: &str) -> (r: Result<Instant, ParseError>)
        ensures
            match instant_of_text(text@) {
                Some(seconds) => r matches Ok(instant) && instant@ == seconds,
                None => r == Err::<Instant, ParseError>(ParseError::Malformed),
            },
    {
        let len: usize = match ascii_len(text) {
            Some(n) => n,
            None => {
                proof {
                    if instant_of_text(text@) is Some {
                        lemma_instant_text_is_ascii(text@);
                    }
                }
                return Err(ParseError::Malformed);
            },
        };
        if len < 25 || len > 27 {
            proof {
                if instant_of_text(text@) is Some {
                    lemma_read_instant_is_its_text(text@);
                }
            }
            return Err(ParseError::Malformed);
        }
        if ascii_at(text, len - 15) != LETTER_T || ascii_at(text, len - 6) != PLUS {
            return Err(ParseError::Malformed);
        }
        if ascii_at(text, len - 5) != DIGIT_ZERO || ascii_at(text, len - 4) != DIGIT_ZERO {
            return Err(ParseError::Malformed);
        }
        if ascii_at(text, len - 3) != COLON {
            return Err(ParseError::Malformed);
        }
        if ascii_at(text, len - 2) != DIGIT_ZERO || ascii_at(text, len - 1) != DIGIT_ZERO {
            return Err(ParseError::Malformed);
        }
        assert(text@.subrange(len - 6, len as int) =~= utc_suffix());
        let (year, month, day) = match read_shown_date(text.substring_ascii(0, len - 15)) {
            Some(date) => date,
            None => {
                return Err(ParseError::Malformed);
            },
        };
        let time = match parse_time(text.substring_ascii(len - 14, len - 6)) {
            Ok(t) => t,
            Err(e) => {
                return Err(e);
            },
        };
        let stamp = match ShownTimestamp::new(year, month, day, time) {
            Some(stamp) => stamp,
            None => {
                return Err(ParseError::Malformed);
            },
        };
        match Instant::from_seconds(stamp.seconds()) {
            Some(instant) => Ok(instant),
            None => Err(ParseError::Malformed),
        }
    }
}

/// A text that is read as an instant holds ASCII characters only.
#[verifier::rlimit(40)]
proof fn lemma_instant_text_is_ascii(s: Seq<char>)
    requires
        instant_of_text(s) is Some,
    ensures
        vstd::utf8::is_ascii_chars(s),
{
    let n = s.len() as int;
    let date = s.subrange(0, n - 15);
    let time = s.subrange(n - 14, n - 6);
    let suffix = s.subrange(n - 6, n);
    lemma_read_texts_are_ascii(date);
    lemma_read_texts_are_ascii(time);
    assert forall|i: int| 0 <= i < s.len() implies '\0' <= #[trigger] s[i] <= '\u{7f}' by {
        if i < n - 15 {
            assert(s[i] == date[i]);
        } else if i == n - 15 {
        } else if i < n - 6 {
            assert(s[i] == time[i - (n - 14)]);
        } else {
            assert(s[i] == suffix[i - (n - 6)]);
        }
    }
}

/// Writing an instant and reading the text gives the instant back.
pub proof fn lemma_instant_text_round_trip(seconds: int)
    requires
        representable(seconds),
    ensures
        instant_of_text(instant_text(seconds)) == Some(seconds),
{
    let civil = shown_at(seconds);
    let s = instant_text(seconds);
    let n = s.len() as int;
    lemma_shown_at_exists(seconds);
    lemma_shown_date_text_is_read(civil.date);
    lemma_time_text_is_read(civil.time);
    assert(s.subrange(0, n - 15) =~= shown_date_text(civil.date));
    assert(s.subrange(n - 14, n - 6) =~= time_text(civil.time));
    assert(s.subrange(n - 6, n) =~= utc_suffix());
}

/// An instant has one text: a text that is read as an instant is the text
/// that is written for that instant, of 25 to 27 characters.
pub proof fn lemma_read_instant_is_its_text(s: Seq<char>)
    requires
        instant_of_text(s) is Some,
    ensures
        s == instant_text(instant_of_text(s)->0),
        25 <= s.len() <= 27,
{
    let n = s.len() as int;
    let date = shown_date_of_text(s.subrange(0, n - 15))->0;
    let time = time_of_text(s.subrange(n - 14, n - 6))->0;
    let civil = Civil { date, time };
    lemma_read_shown_date_is_its_text(s.subrange(0, n - 15));
    lemma_read_time_is_its_text(s.subrange(n - 14, n - 6));
    lemma_shown_at_seconds(civil);
    assert(s =~= s.subrange(0, n - 15) + seq!['T'] + s.subrange(n - 14, n - 6) + s.subrange(
        n - 6,
        n,
    ));
}

} // verus!
