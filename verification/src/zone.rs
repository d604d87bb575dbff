//! Time zones of the IANA database, as the `chrono-tz` crate holds them.
//!
//! The database is not part of this library. What it answers is named here,
//! and the rest of the library is proved for whatever it answers.

use crate::calendar::{CIVIL_MAX_SECONDS, CIVIL_MIN_SECONDS};
use crate::civil::NaiveTimestamp;
use crate::instant::{representable, Instant};
use vstd::prelude::*;

verus! {

/// The most that a zone's civil time is ahead of UTC or behind it, in seconds:
/// less than a day.
pub const MAX_OFFSET_SECONDS: i32 = 86_399;

/// Whether `offset` can be the offset of a zone, in seconds east of UTC: less
/// than a day either way.
pub open spec fn is_offset(offset: int) -> bool {
    -MAX_OFFSET_SECONDS <= offset <= MAX_OFFSET_SECONDS
}

/// Whether the database holds a zone with this identifier: whether
/// `chrono_tz::Tz::from_str` accepts it.
pub uninterp spec fn zone_known(name: Seq<char>) -> bool;

/// The number of seconds that the civil time of the zone `name` is ahead of
/// UTC at the instant `utc_seconds`: what `chrono_tz::Tz::offset_from_utc_datetime`
/// gives for that zone and instant, as seconds east of UTC.
pub uninterp spec fn zone_utc_offset(name: Seq<char>, utc_seconds: int) -> int;

/// The offsets, in seconds east of UTC, under which the zone `name` shows the
/// civil time `local_seconds`: what `chrono_tz::Tz::offset_from_local_datetime`
/// gives for that zone and civil time. None, one, or two in the order given.
pub uninterp spec fn zone_local_offsets(name: Seq<char>, local_seconds: int) -> Seq<int>;

/// The offset of a zone: the number of seconds that its civil time is ahead
/// of UTC, less than a day either way.
#[derive(Clone, Copy, Debug, PartialEq, Eq)]
pub struct Offset {
    seconds: i32,
}

impl View for Offset {
    type V = int;

    closed spec fn view(&self) -> int {
        self.seconds as int
    }
}

impl Offset {
    /// Every offset is less than a day.
    #[verifier::type_invariant]
    pub open spec fn wf(self) -> bool {
        is_offset(self@)
    }

    /// The offset of `seconds` east of UTC, if that is less than a day.
    pub fn new(seconds: i32) -> (r: Option<Offset>)
        ensures
            r is Some <==> is_offset(seconds as int),
            r matches Some(offset) ==> offset@ == seconds,
    {
        if -MAX_OFFSET_SECONDS <= seconds && seconds <= MAX_OFFSET_SECONDS {
            Some(Offset { seconds })
        } else {
            None
        }
    }

    /// The offset in seconds east of UTC.
    pub fn seconds(&self) -> (r: i32)
        ensures
            r == self@,
            is_offset(r as int),
    {
        proof {
            use_type_invariant(self);
        }
        self.seconds
    }
}

/// What the database answers for a civil time in a zone.
#[derive(Clone, Copy, Debug, PartialEq, Eq)]
pub enum LocalOffsets {
    /// No offset: the zone's clocks skipped this civil time.
    Gap,
    /// One offset.
    Single(Offset),
    /// Two offsets: the zone's clocks showed this civil time twice.
    Fold(Offset, Offset),
}

impl View for LocalOffsets {
    type V = Seq<int>;

    open spec fn view(&self) -> Seq<int> {
        match *self {
            LocalOffsets::Gap => seq![],
            LocalOffsets::Single(a) => seq![a@],
            LocalOffsets::Fold(a, b) => seq![a@, b@],
        }
    }
}

/// Asks `chrono_tz::Tz::from_str` whether the database holds a zone with the
/// identifier `name`. The answer is the one that `zone_known` names.
#[verifier::external_body]
fn database_holds(name: &str) -> (r: bool)
    ensures
        r == zone_known(name@),
{
    name.parse::<chrono_tz::Tz>().is_ok()
}

/// Asks `chrono_tz::Tz::offset_from_utc_datetime` for the offset of the zone
/// `name` at an instant, and hands it on as seconds east of UTC. The answer is
/// the one that `zone_utc_offset` names; as a `chrono::FixedOffset` it is
/// less than a day either way.
#[verifier::external_body]
fn database_utc_offset(name: &str, utc_seconds: i64) -> (r: Offset)
    requires
        zone_known(name@),
        representable(utc_seconds as int),
    ensures
        r@ == zone_utc_offset(name@, utc_seconds as int),
        is_offset(r@),
{
    let tz: chrono_tz::Tz = name.parse().unwrap();
    let utc = chrono::DateTime::from_timestamp(utc_seconds, 0).unwrap().naive_utc();
    let offset = chrono::TimeZone::offset_from_utc_datetime(&tz, &utc);
    Offset { seconds: chrono::Offset::fix(&offset).local_minus_utc() }
}

/// Asks `chrono_tz::Tz::offset_from_local_datetime` for the offsets of the
/// zone `name` at a civil time, and hands them on as seconds east of UTC, in
/// the order given. The answer is the one that `zone_local_offsets` names; as
/// a `chrono::FixedOffset` each offset is less than a day either way.
#[verifier::external_body]
fn database_local_offsets(name: &str, local_seconds: i64) -> (r: LocalOffsets)
    requires
        zone_known(name@),
        CIVIL_MIN_SECONDS <= local_seconds <= CIVIL_MAX_SECONDS,
    ensures
        r@ == zone_local_offsets(name@, local_seconds as int),
        forall|k: int| 0 <= k < r@.len() ==> is_offset(#[trigger] r@[k]),
{
    let tz: chrono_tz::Tz = name.parse().unwrap();
    let local = chrono::DateTime::from_timestamp(local_seconds, 0).unwrap().naive_utc();
    match chrono::TimeZone::offset_from_local_datetime(&tz, &local) {
        chrono::LocalResult::None => LocalOffsets::Gap,
        chrono::LocalResult::Single(a) => LocalOffsets::Single(
            Offset { seconds: chrono::Offset::fix(&a).local_minus_utc() },
        ),
        chrono::LocalResult::Ambiguous(a, b) => LocalOffsets::Fold(
            Offset { seconds: chrono::Offset::fix(&a).local_minus_utc() },
            Offset { seconds: chrono::Offset::fix(&b).local_minus_utc() },
        ),
    }
}

/// A zone that the database holds.
#[derive(Debug, PartialEq, Eq)]
pub struct Zone {
    name: String,
}

impl View for Zone {
    type V = Seq<char>;

    closed spec fn view(&self) -> Seq<char> {
        self.name@
    }
}

impl Clone for Zone {
    fn clone(&self) -> (r: Self)
        ensures
            r@ == self@,
    {
        proof {
            use_type_invariant(self);
        }
        Zone { name: self.name.clone() }
    }
}

impl Zone {
    /// The database holds every zone.
    #[verifier::type_invariant]
    pub open spec fn wf(self) -> bool {
        zone_known(self@)
    }

    /// The zone with the identifier `name`, such as `Europe/London`, if the
    /// database holds it.
    pub fn from_name(name: &str) -> (r: Option<Zone>)
        ensures
            r is Some <==> zone_known(name@),
            r matches Some(zone) ==> zone@ == name@,
    {
        if database_holds(name) {
            Some(Zone { name: String::from_str(name) })
        } else {
            None
        }
    }

    /// The zone's identifier.
    pub fn name(&self) -> (r: &str)
        ensures
            r@ == self@,
    {
        self.name.as_str()
    }

    /// The zone's offset at `instant`.
    pub fn utc_offset(&self, instant: &Instant) -> (r: Offset)
        ensures
            r@ == zone_utc_offset(self@, instant@),
    {
        proof {
            use_type_invariant(self);
        }
        database_utc_offset(self.name.as_str(), instant.seconds())
    }

    /// The offsets under which the zone shows the civil time `stamp`.
    pub fn local_offsets(&self, stamp: &NaiveTimestamp) -> (r: LocalOffsets)
        ensures
            r@ == zone_local_offsets(self@, stamp@.seconds()),
    {
        proof {
            use_type_invariant(self);
        }
        database_local_offsets(self.name.as_str(), stamp.seconds())
    }
}

/// Which zone a civil time is to be read in.
#[derive(Clone, Debug, PartialEq, Eq)]
pub enum ZoneId {
    /// The given zone.
    Explicit(Zone),
    /// The zone that the host reports as its own at the time of use.
    HostDefault,
    /// No zone has been chosen, and one has to be.
    Required,
}

/// Why no zone was found.
#[derive(Clone, Copy, Debug, PartialEq, Eq)]
pub enum ZoneError {
    /// The host reported no zone, or one that the database does not hold.
    NoHostZone,
    /// No zone has been chosen.
    ZoneRequired,
}

/// The identifier of the zone that `id` stands for, where `host` is what the
/// host reports as its own zone.
pub open spec fn located(id: ZoneId, host: Option<&str>) -> Result<Seq<char>, ZoneError> {
    match id {
        ZoneId::Explicit(zone) => Ok(zone@),
        ZoneId::HostDefault => match host {
            Some(name) => if zone_known(name@) {
                Ok(name@)
            } else {
                Err(ZoneError::NoHostZone)
            },
            None => Err(ZoneError::NoHostZone),
        },
        ZoneId::Required => Err(ZoneError::ZoneRequired),
    }
}

impl ZoneId {
    /// The zone that this stands for. `host` is what the host reports as its
    /// own zone, asked for this call: the identifier, or nothing if the host
    /// has none to report.
    pub fn locate(&self, host: Option<&str>) -> (r: Result<Zone, ZoneError>)
        ensures
            match located(*self, host) {
                Ok(name) => r matches Ok(zone) && zone@ == name,
                Err(e) => r == Err::<Zone, ZoneError>(e),
            },
    {
        match self {
            ZoneId::Explicit(zone) => Ok(zone.clone()),
            ZoneId::HostDefault => match host {
                Some(name) => match Zone::from_name(name) {
                    Some(zone) => Ok(zone),
                    None => Err(ZoneError::NoHostZone),
                },
                None => Err(ZoneError::NoHostZone),
            },
            ZoneId::Required => Err(ZoneError::ZoneRequired),
        }
    }
}

} // verus!
