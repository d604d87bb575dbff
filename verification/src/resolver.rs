//! From a civil time in a zone to the instant that it names, and from an
//! instant to the civil time that a zone shows.
//!
//! A civil time names one instant, or two where the zone's clocks were set
//! back over it, or none where they were set forward over it. The resolver
//! reports which; it never picks one of two, and never makes up one. Every
//! date and time of the calendar, its first and last day too, names what the
//! zone's offsets give: no instant is out of reach.

use crate::calendar::{lemma_day_index_within_year, CIVIL_MAX_SECONDS, CIVIL_MIN_SECONDS};
use crate::civil::{
    lemma_shown_at_exists, lemma_shown_at_seconds, shown_at, Civil, NaiveTimestamp,
    ShownTimestamp,
};
use crate::instant::{representable, Instant};
use crate::zone::{
    is_offset, located, zone_local_offsets, zone_utc_offset, LocalOffsets, Offset, Zone,
    ZoneError, ZoneId,
};
use vstd::prelude::*;

verus! {

/// What a civil time names in a zone.
#[derive(Clone, Copy, Debug, PartialEq, Eq)]
pub enum ResolutionOutcome {
    /// One instant.
    Unique(Instant),
    /// Two instants, the earlier first: the zone showed this civil time
    /// twice.
    Ambiguous(Instant, Instant),
    /// No instant: the zone never showed this civil time.
    NonExistent,
}

/// The mathematical value of a `ResolutionOutcome`: instants as their
/// seconds counts.
pub enum Outcome {
    /// One instant.
    Unique(int),
    /// Two instants, the earlier first.
    Ambiguous(int, int),
    /// No instant.
    NonExistent,
}

impl View for ResolutionOutcome {
    type V = Outcome;

    open spec fn view(&self) -> Outcome {
        match *self {
            ResolutionOutcome::Unique(instant) => Outcome::Unique(instant@),
            ResolutionOutcome::Ambiguous(early, late) => Outcome::Ambiguous(early@, late@),
            ResolutionOutcome::NonExistent => Outcome::NonExistent,
        }
    }
}

/// What the civil time `local` names, given the offsets under which the zone
/// shows it.
///
/// Under the offset `o` the civil time `local` is the instant `local - o`.
/// One offset gives one instant. Two offsets give two instants, the earlier
/// first; should the two offsets be equal, they give one. No offset gives
/// none.
pub open spec fn outcome_of(local: int, offsets: Seq<int>) -> Outcome {
    if offsets.len() == 1 {
        Outcome::Unique(local - offsets[0])
    } else if offsets.len() == 2 {
        if offsets[0] == offsets[1] {
            Outcome::Unique(local - offsets[0])
        } else if offsets[0] > offsets[1] {
            Outcome::Ambiguous(local - offsets[0], local - offsets[1])
        } else {
            Outcome::Ambiguous(local - offsets[1], local - offsets[0])
        }
    } else {
        Outcome::NonExistent
    }
}

/// What the civil time `stamp` names in the zone `zone`.
pub open spec fn resolved(stamp: Civil, zone: Seq<char>) -> Outcome {
    outcome_of(stamp.seconds(), zone_local_offsets(zone, stamp.seconds()))
}

/// What the zone `zone` shows at the instant `instant`.
pub open spec fn projected(instant: int, zone: Seq<char>) -> Civil {
    shown_at(instant + zone_utc_offset(zone, instant))
}

/// The instant that the civil time `stamp` is under `offset`.
fn instant_under(stamp: &NaiveTimestamp, offset: Offset) -> (r: Instant)
    ensures
        r@ == stamp@.seconds() - offset@,
{
    Instant::within_range(stamp.seconds() - offset.seconds() as i64)
}

/// Says what the civil time `stamp` names, given the offsets that the
/// database answered for it.
pub fn classify(stamp: &NaiveTimestamp, offsets: LocalOffsets) -> (r: ResolutionOutcome)
    ensures
        r@ == outcome_of(stamp@.seconds(), offsets@),
{
    match offsets {
        LocalOffsets::Gap => ResolutionOutcome::NonExistent,
        LocalOffsets::Single(offset) => ResolutionOutcome::Unique(instant_under(stamp, offset)),
        LocalOffsets::Fold(first, second) => {
            if first.seconds() == second.seconds() {
                ResolutionOutcome::Unique(instant_under(stamp, first))
            } else if first.seconds() > second.seconds() {
                ResolutionOutcome::Ambiguous(
                    instant_under(stamp, first),
                    instant_under(stamp, second),
                )
            } else {
                ResolutionOutcome::Ambiguous(
                    instant_under(stamp, second),
                    instant_under(stamp, first),
                )
            }
        },
    }
}

/// What the civil time `stamp` names in `zone`.
pub fn resolve_in(stamp: &NaiveTimestamp, zone: &Zone) -> (r: ResolutionOutcome)
    ensures
        r@ == resolved(stamp@, zone@),
{
    classify(stamp, zone.local_offsets(stamp))
}

/// What the civil time `stamp` names in the zone that `id` stands for.
/// `host` is what the host reports as its own zone, asked for this call.
///
/// Fails only where no zone is found; that the civil time names two instants
/// or none is an outcome, not a failure of this call.
pub fn resolve(stamp: &NaiveTimestamp, id: &ZoneId, host: Option<&str>) -> (r: Result<
    ResolutionOutcome,
    ZoneError,
>)
    ensures
        match located(*id, host) {
            Ok(zone) => r matches Ok(outcome) && outcome@ == resolved(stamp@, zone),
            Err(e) => r == Err::<ResolutionOutcome, ZoneError>(e),
        },
{
    match id.locate(host) {
        Ok(zone) => Ok(resolve_in(stamp, &zone)),
        Err(e) => Err(e),
    }
}

/// What `zone` shows at `instant`: the date and time of its clocks and
/// calendars.
pub fn project(instant: &Instant, zone: &Zone) -> (r: ShownTimestamp)
    ensures
        r@ == projected(instant@, zone@),
        r@.seconds() == instant@ + zone_utc_offset(zone@, instant@),
{
    let offset = zone.utc_offset(instant);
    ShownTimestamp::within_reach(instant.seconds() + offset.seconds() as i64)
}

/// Of two instants that a civil time names, the first is the earlier, and
/// they lie as far apart as the two offsets differ.
pub proof fn lemma_ambiguous_is_ordered(local: int, offsets: Seq<int>)
    requires
        outcome_of(local, offsets) is Ambiguous,
    ensures
        offsets.len() == 2,
        match outcome_of(local, offsets) {
            Outcome::Ambiguous(early, late) => {
                &&& early < late
                &&& late - early == offsets[0] - offsets[1] || late - early == offsets[1]
                    - offsets[0]
            },
            _ => false,
        },
{
}

/// Every instant that a date and time of the calendar names under offsets of
/// less than a day is one of the instants, and is the civil time less one of
/// the offsets.
pub proof fn lemma_outcome_is_from_offsets(stamp: Civil, offsets: Seq<int>)
    requires
        stamp.valid(),
        forall|j: int| 0 <= j < offsets.len() ==> is_offset(#[trigger] offsets[j]),
    ensures
        match outcome_of(stamp.seconds(), offsets) {
            Outcome::Unique(instant) => representable(instant) && exists|k: int|
                0 <= k < offsets.len() && instant == stamp.seconds() - #[trigger] offsets[k],
            Outcome::Ambiguous(early, late) => {
                &&& representable(early)
                &&& representable(late)
                &&& exists|k: int|
                    0 <= k < offsets.len() && early == stamp.seconds() - #[trigger] offsets[k]
                &&& exists|k: int|
                    0 <= k < offsets.len() && late == stamp.seconds() - #[trigger] offsets[k]
            },
            Outcome::NonExistent => true,
        },
{
    let local = stamp.seconds();
    lemma_calendar_seconds_range(stamp);
    match outcome_of(local, offsets) {
        Outcome::Unique(instant) => {
            assert(is_offset(offsets[0]));
            assert(instant == local - offsets[0]);
        },
        Outcome::Ambiguous(early, late) => {
            assert(is_offset(offsets[0]) && is_offset(offsets[1]));
            if offsets[0] > offsets[1] {
                assert(early == local - offsets[0]);
                assert(late == local - offsets[1]);
            } else {
                assert(early == local - offsets[1]);
                assert(late == local - offsets[0]);
            }
        },
        Outcome::NonExistent => {},
    }
}

/// Every offset under which a zone shows a civil time gives one of the
/// instants that the civil time names, where there are at most two offsets.
pub proof fn lemma_outcome_names_every_offset(local: int, offsets: Seq<int>, k: int)
    requires
        offsets.len() <= 2,
        0 <= k < offsets.len(),
    ensures
        match outcome_of(local, offsets) {
            Outcome::Unique(instant) => instant == local - offsets[k],
            Outcome::Ambiguous(early, late) => early == local - offsets[k] || late == local
                - offsets[k],
            Outcome::NonExistent => false,
        },
{
}

/// In a zone that shows every civil time under one and the same offset, a
/// zone whose clocks are never set forward or back, every date and time names
/// one instant.
pub proof fn lemma_fixed_offset_zone_is_unambiguous(stamp: Civil, zone: Seq<char>, offset: int)
    requires
        stamp.valid(),
        forall|local: int| #[trigger] zone_local_offsets(zone, local) == seq![offset],
    ensures
        resolved(stamp, zone) == Outcome::Unique(stamp.seconds() - offset),
{
    assert(zone_local_offsets(zone, stamp.seconds()) == seq![offset]);
}

/// Whether the database's two answers agree at `instant` in `zone`: whether
/// the offset that it gives for the instant is among the offsets, at most
/// two, that it gives for what the zone then shows.
pub open spec fn answers_agree(zone: Seq<char>, instant: int) -> bool {
    let offset = zone_utc_offset(zone, instant);
    let offsets = zone_local_offsets(zone, instant + offset);
    is_offset(offset) && offsets.len() <= 2 && offsets.contains(offset)
}

/// What a zone shows at an instant names that instant again, wherever the
/// database's two answers agree: as the one instant where the zone showed it
/// once, and as one of the two where the zone showed it twice.
pub proof fn lemma_project_then_resolve(instant: int, zone: Seq<char>)
    requires
        representable(instant),
        answers_agree(zone, instant),
    ensures
        projected(instant, zone).seconds() == instant + zone_utc_offset(zone, instant),
        match resolved(projected(instant, zone), zone) {
            Outcome::Unique(found) => found == instant,
            Outcome::Ambiguous(early, late) => early == instant || late == instant,
            Outcome::NonExistent => false,
        },
        zone_local_offsets(zone, instant + zone_utc_offset(zone, instant)).len() == 1 ==> resolved(
            projected(instant, zone),
            zone,
        ) == Outcome::Unique(instant),
{
    let local = instant + zone_utc_offset(zone, instant);
    let offsets = zone_local_offsets(zone, local);
    lemma_shown_at_exists(local);
    let k = choose|k: int| 0 <= k < offsets.len() && offsets[k] == zone_utc_offset(zone, instant);
    lemma_outcome_names_every_offset(local, offsets, k);
}

/// An instant that a date and time of the calendar names is shown as that
/// date and time, by every zone whose offset at the instant is the one under
/// which the instant was named.
pub proof fn lemma_resolve_then_project(stamp: Civil, zone: Seq<char>, instant: int)
    requires
        stamp.valid(),
        zone_utc_offset(zone, instant) == stamp.seconds() - instant,
    ensures
        projected(instant, zone) == stamp,
{
    lemma_shown_at_seconds(stamp);
}

/// The seconds count of a date and time of the calendar lies within the
/// calendar's range.
proof fn lemma_calendar_seconds_range(stamp: Civil)
    requires
        stamp.valid(),
    ensures
        CIVIL_MIN_SECONDS <= stamp.seconds() <= CIVIL_MAX_SECONDS,
{
    lemma_day_index_within_year(stamp.date.year, stamp.date.month, stamp.date.day);
}

} // verus!
