//! The state of a date, time and zone picker: three inputs, read anew on
//! every edit of any of them.

use crate::civil::ShownTimestamp;
use crate::instant::Instant;
use crate::parser::{parse, timestamp_of_text, ParseError};
use crate::resolver::{project, projected, resolve, resolved, Outcome, ResolutionOutcome};
use crate::zone::{located, Zone, ZoneError, ZoneId};
use vstd::prelude::*;

verus! {

/// Why the inputs name no single instant.
#[derive(Clone, Copy, Debug, PartialEq, Eq)]
pub enum ComposeError {
    /// The date or the time of day was not read.
    Parse(ParseError),
    /// No zone was found.
    Zone(ZoneError),
    /// The civil time names two instants, the earlier first.
    Ambiguous(Instant, Instant),
    /// The civil time names no instant.
    NonExistent,
}

/// Whether `r` is what the inputs come to: the one instant that they name,
/// or the first reason why they name none. The texts are read first, then the
/// zone is found, then the civil time is resolved in it.
pub open spec fn is_composition(
    r: Result<Instant, ComposeError>,
    date: Seq<char>,
    time: Seq<char>,
    id: ZoneId,
    host: Option<&str>,
) -> bool {
    match timestamp_of_text(date, time) {
        None => r == Err::<Instant, ComposeError>(ComposeError::Parse(ParseError::Malformed)),
        Some(stamp) => match located(id, host) {
            Err(e) => r == Err::<Instant, ComposeError>(ComposeError::Zone(e)),
            Ok(zone) => match resolved(stamp, zone) {
                Outcome::Unique(seconds) => r matches Ok(instant) && instant@ == seconds,
                Outcome::Ambiguous(first, second) => r matches Err(
                    ComposeError::Ambiguous(early, late),
                ) && early@ == first && late@ == second,
                Outcome::NonExistent => r == Err::<Instant, ComposeError>(
                    ComposeError::NonExistent,
                ),
            },
        },
    }
}

/// The instant that the text of a date, the text of a time of day and a zone
/// name together. `host` is what the host reports as its own zone, asked for
/// this call.
pub fn compose(date: &str, time: &str, id: &ZoneId, host: Option<&str>) -> (r: Result<
    Instant,
    ComposeError,
>)
    ensures
        is_composition(r, date@, time@, *id, host),
{
    let stamp = match parse(date, time) {
        Ok(stamp) => stamp,
        Err(e) => {
            return Err(ComposeError::Parse(e));
        },
    };
    match resolve(&stamp, id, host) {
        Ok(ResolutionOutcome::Unique(instant)) => Ok(instant),
        Ok(ResolutionOutcome::Ambiguous(early, late)) => Err(ComposeError::Ambiguous(early, late)),
        Ok(ResolutionOutcome::NonExistent) => Err(ComposeError::NonExistent),
        Err(e) => Err(ComposeError::Zone(e)),
    }
}

/// The host's own zone and what it shows at `instant`, if the host reports a
/// zone that the database holds.
pub fn host_view(instant: &Instant, host: Option<&str>) -> (r: Option<(Zone, ShownTimestamp)>)
    ensures
        match located(ZoneId::HostDefault, host) {
            Ok(name) => r matches Some((zone, stamp)) && zone@ == name && stamp@ == projected(
                instant@,
                name,
            ),
            Err(_) => r is None,
        },
{
    match ZoneId::HostDefault.locate(host) {
        Ok(zone) => {
            let stamp = project(instant, &zone);
            Some((zone, stamp))
        },
        Err(_) => None,
    }
}

/// What the picker's three inputs hold.
#[derive(Clone, Debug, PartialEq, Eq)]
pub struct State {
    /// The text of the date field.
    pub date: String,
    /// The text of the time field.
    pub time: String,
    /// The zone chosen.
    pub zone: ZoneId,
}

/// An edit of one of the picker's inputs.
#[derive(Clone, Debug, PartialEq, Eq)]
pub enum Msg {
    /// The date field now holds this text.
    UpdateDate(String),
    /// The time field now holds this text.
    UpdateTime(String),
    /// This zone was chosen.
    UpdateTimeZone(Zone),
}

/// The state after an edit.
pub open spec fn edited(state: State, msg: Msg) -> State {
    match msg {
        Msg::UpdateDate(text) => State { date: text, time: state.time, zone: state.zone },
        Msg::UpdateTime(text) => State { date: state.date, time: text, zone: state.zone },
        Msg::UpdateTimeZone(zone) => State {
            date: state.date,
            time: state.time,
            zone: ZoneId::Explicit(zone),
        },
    }
}

impl State {
    /// The state before any edit: both fields empty, and the host's own zone
    /// to be used.
    pub fn new() -> (r: State)
        ensures
            r.date@ == Seq::<char>::empty(),
            r.time@ == Seq::<char>::empty(),
            r.zone == ZoneId::HostDefault,
    {
        State { date: String::new(), time: String::new(), zone: ZoneId::HostDefault }
    }

    /// Whether the host's own zone is needed to say what the inputs name
    /// after the edit `msg`: whether no zone is chosen by then.
    pub fn asks_host(&self, msg: &Msg) -> (r: bool)
        ensures
            r == (edited(*self, *msg).zone is HostDefault),
    {
        match msg {
            Msg::UpdateTimeZone(_) => false,
            _ => match self.zone {
                ZoneId::HostDefault => true,
                _ => false,
            },
        }
    }

    /// The instant that the inputs name as they stand.
    pub fn create_datetime(&self, host: Option<&str>) -> (r: Result<Instant, ComposeError>)
        ensures
            is_composition(r, self.date@, self.time@, self.zone, host),
    {
        compose(self.date.as_str(), self.time.as_str(), &self.zone, host)
    }

    /// Takes an edit in, and says what the inputs name after it. The result
    /// never repeats what an earlier state named: it is computed from the
    /// state as the edit leaves it.
    pub fn update(&mut self, msg: Msg, host: Option<&str>) -> (r: Result<Instant, ComposeError>)
        ensures
            *final(self) == edited(*old(self), msg),
            is_composition(r, final(self).date@, final(self).time@, final(self).zone, host),
    {
        match msg {
            Msg::UpdateDate(text) => {
                self.date = text;
            },
            Msg::UpdateTime(text) => {
                self.time = text;
            },
            Msg::UpdateTimeZone(zone) => {
                self.zone = ZoneId::Explicit(zone);
            },
        }
        self.create_datetime(host)
    }
}

} // verus!
