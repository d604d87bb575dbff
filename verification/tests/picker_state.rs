use zonetime::civil::NaiveTimestamp;
use zonetime::instant::Instant;
use zonetime::parser::ParseError;
use zonetime::picker::{compose, host_view, ComposeError, Msg, State};
use zonetime::zone::{Zone, ZoneError, ZoneId};

fn zone(name: &str) -> Zone {
    Zone::from_name(name).unwrap()
}

fn read(text: &str) -> Instant {
    Instant::parse(text).unwrap()
}

#[test]
fn the_inputs_name_an_instant() {
    let london = ZoneId::Explicit(zone("Europe/London"));
    assert_eq!(
        compose("2021-07-01", "12:00:00", &london, None),
        Ok(read("2021-07-01T11:00:00+00:00"))
    );
    assert_eq!(compose("2021-07-01", "12:00", &london, None), Ok(read("2021-07-01T11:00:00+00:00")));
    assert_eq!(
        compose("2021-07-01", "12:00:00", &ZoneId::HostDefault, Some("Asia/Tokyo")),
        Ok(read("2021-07-01T03:00:00+00:00"))
    );
}

#[test]
fn each_failure_has_its_own_value() {
    let london = ZoneId::Explicit(zone("Europe/London"));
    assert_eq!(
        compose("2021-13-01", "12:00:00", &london, None),
        Err(ComposeError::Parse(ParseError::Malformed))
    );
    assert_eq!(
        compose("2021-07-01", "24:00:00", &london, None),
        Err(ComposeError::Parse(ParseError::Malformed))
    );
    assert_eq!(
        compose("2021-07-01", "12:00:00", &ZoneId::HostDefault, None),
        Err(ComposeError::Zone(ZoneError::NoHostZone))
    );
    assert_eq!(
        compose("2021-07-01", "12:00:00", &ZoneId::HostDefault, Some("Europe/Atlantis")),
        Err(ComposeError::Zone(ZoneError::NoHostZone))
    );
    assert_eq!(
        compose("2021-07-01", "12:00:00", &ZoneId::Required, Some("Europe/London")),
        Err(ComposeError::Zone(ZoneError::ZoneRequired))
    );
    assert_eq!(
        compose("2021-10-31", "01:30:00", &london, None),
        Err(ComposeError::Ambiguous(
            read("2021-10-31T00:30:00+00:00"),
            read("2021-10-31T01:30:00+00:00")
        ))
    );
    assert_eq!(compose("2021-03-28", "01:30:00", &london, None), Err(ComposeError::NonExistent));
}

#[test]
fn the_texts_are_read_before_the_zone_is_looked_for() {
    assert_eq!(
        compose("", "", &ZoneId::HostDefault, None),
        Err(ComposeError::Parse(ParseError::Malformed))
    );
    assert_eq!(
        compose("nonsense", "12:00", &ZoneId::Required, None),
        Err(ComposeError::Parse(ParseError::Malformed))
    );
}

#[test]
fn the_first_and_the_last_day_of_the_calendar_name_instants() {
    let utc = ZoneId::Explicit(zone("UTC"));
    assert_eq!(
        compose("9999-12-31", "12:00:00", &utc, None),
        Ok(read("9999-12-31T12:00:00+00:00"))
    );
    assert_eq!(
        compose("9999-12-31", "23:59:59", &utc, None),
        Ok(read("9999-12-31T23:59:59+00:00"))
    );
    assert_eq!(compose("0000-01-01", "00:00", &utc, None), Ok(read("0000-01-01T00:00:00+00:00")));
    let west = ZoneId::Explicit(zone("Etc/GMT+12"));
    assert_eq!(
        compose("9999-12-31", "23:59:59", &west, None),
        Ok(read("+10000-01-01T11:59:59+00:00"))
    );
    let east = ZoneId::Explicit(zone("Etc/GMT-14"));
    assert_eq!(
        compose("0000-01-01", "00:00:00", &east, None),
        Ok(read("-0001-12-31T10:00:00+00:00"))
    );
    let mut state = State::new();
    state.update(Msg::UpdateTimeZone(zone("UTC")), None).unwrap_err();
    state.update(Msg::UpdateDate("9999-12-31".to_string()), None).unwrap_err();
    assert_eq!(
        state.update(Msg::UpdateTime("12:00:00".to_string()), None),
        Ok(read("9999-12-31T12:00:00+00:00"))
    );
}

#[test]
fn a_new_picker_is_empty_and_uses_the_host_zone() {
    let state = State::new();
    assert_eq!(state.date, "");
    assert_eq!(state.time, "");
    assert_eq!(state.zone, ZoneId::HostDefault);
    assert_eq!(
        state.create_datetime(Some("Europe/London")),
        Err(ComposeError::Parse(ParseError::Malformed))
    );
}

#[test]
fn every_edit_is_taken_in_and_the_inputs_are_read_anew() {
    let host = Some("Europe/London");
    let mut state = State::new();

    let r = state.update(Msg::UpdateDate("2021-07-01".to_string()), host);
    assert_eq!(r, Err(ComposeError::Parse(ParseError::Malformed)));
    assert_eq!(state.date, "2021-07-01");
    assert_eq!(state.time, "");
    assert_eq!(state.zone, ZoneId::HostDefault);

    let r = state.update(Msg::UpdateTime("12:00".to_string()), host);
    assert_eq!(r, Ok(read("2021-07-01T11:00:00+00:00")));
    assert_eq!(state.date, "2021-07-01");
    assert_eq!(state.time, "12:00");

    let r = state.update(Msg::UpdateTimeZone(zone("America/New_York")), host);
    assert_eq!(r, Ok(read("2021-07-01T16:00:00+00:00")));
    assert_eq!(state.zone, ZoneId::Explicit(zone("America/New_York")));

    let r = state.update(Msg::UpdateDate("2021-11-07".to_string()), host);
    assert_eq!(r, Ok(read("2021-11-07T17:00:00+00:00")));

    let r = state.update(Msg::UpdateTime("01:30:00".to_string()), host);
    assert_eq!(
        r,
        Err(ComposeError::Ambiguous(
            read("2021-11-07T05:30:00+00:00"),
            read("2021-11-07T06:30:00+00:00")
        ))
    );

    let r = state.update(Msg::UpdateDate("2021-03-14".to_string()), host);
    assert_eq!(r, Ok(read("2021-03-14T06:30:00+00:00")));

    let r = state.update(Msg::UpdateTime("02:30:00".to_string()), host);
    assert_eq!(r, Err(ComposeError::NonExistent));

    let r = state.update(Msg::UpdateTime("02:3".to_string()), host);
    assert_eq!(r, Err(ComposeError::Parse(ParseError::Malformed)));
    assert_eq!(state.time, "02:3");
    assert_eq!(state.date, "2021-03-14");
}

#[test]
fn the_host_zone_is_asked_for_on_every_edit() {
    let mut state = State::new();
    state.update(Msg::UpdateDate("2021-07-01".to_string()), None).unwrap_err();
    let r = state.update(Msg::UpdateTime("12:00:00".to_string()), None);
    assert_eq!(r, Err(ComposeError::Zone(ZoneError::NoHostZone)));
    assert_eq!(
        state.create_datetime(Some("Europe/London")),
        Ok(read("2021-07-01T11:00:00+00:00"))
    );
    assert_eq!(state.create_datetime(Some("Asia/Tokyo")), Ok(read("2021-07-01T03:00:00+00:00")));
    assert_eq!(state.create_datetime(None), Err(ComposeError::Zone(ZoneError::NoHostZone)));
}

#[test]
fn the_host_sees_an_instant_in_its_own_zone() {
    let instant = read("2021-10-31T00:30:00+00:00");
    let (zone, local) = host_view(&instant, Some("Europe/London")).unwrap();
    assert_eq!(zone.name(), "Europe/London");
    assert_eq!(local.naive(), NaiveTimestamp::from_parts(2021, 10, 31, 1, 30, 0));
    assert_eq!(host_view(&instant, None), None);
    assert_eq!(host_view(&instant, Some("Europe/Atlantis")), None);
}

#[test]
fn the_host_is_asked_only_where_no_zone_is_chosen() {
    let mut state = State::new();
    assert!(state.asks_host(&Msg::UpdateDate("2021-07-01".to_string())));
    assert!(state.asks_host(&Msg::UpdateTime("12:00".to_string())));
    assert!(!state.asks_host(&Msg::UpdateTimeZone(zone("Europe/London"))));
    state.update(Msg::UpdateTimeZone(zone("Europe/London")), None).unwrap_err();
    assert!(!state.asks_host(&Msg::UpdateDate("2021-07-01".to_string())));
    assert!(!state.asks_host(&Msg::UpdateTime("12:00".to_string())));
    assert!(!state.asks_host(&Msg::UpdateTimeZone(zone("UTC"))));
    state.update(Msg::UpdateDate("2021-07-01".to_string()), None).unwrap_err();
    assert_eq!(
        state.update(Msg::UpdateTime("12:00".to_string()), None),
        state.create_datetime(Some("Asia/Tokyo"))
    );
    state.zone = ZoneId::Required;
    assert!(!state.asks_host(&Msg::UpdateTime("12:00".to_string())));
}
