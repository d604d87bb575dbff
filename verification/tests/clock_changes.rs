use zonetime::civil::NaiveTimestamp;
use zonetime::instant::Instant;
use zonetime::resolver::{project, resolve_in, ResolutionOutcome};
use zonetime::zone::Zone;

fn at(seconds: i64) -> Instant {
    Instant::from_seconds(seconds).unwrap()
}

/// The instants between `from` and `to` at which the zone's offset changes, each
/// with the offsets before and after it. Changes that are undone again within a
/// day may be passed over.
fn clock_changes(zone: &Zone, from: i64, to: i64) -> Vec<(i64, i64, i64)> {
    let mut changes: Vec<(i64, i64, i64)> = Vec::new();
    let mut low: i64 = from;
    let mut before: i64 = i64::from(zone.utc_offset(&at(low)).seconds());
    while low < to {
        let high: i64 = (low + 86_400).min(to);
        let after: i64 = i64::from(zone.utc_offset(&at(high)).seconds());
        if after != before {
            let mut a: i64 = low;
            let mut b: i64 = high;
            while b - a > 1 {
                let mid: i64 = a + (b - a) / 2;
                if i64::from(zone.utc_offset(&at(mid)).seconds()) == before {
                    a = mid;
                } else {
                    b = mid;
                }
            }
            changes.push((b, before, i64::from(zone.utc_offset(&at(b)).seconds())));
        }
        before = after;
        low = high;
    }
    changes
}

/// Checks every `step`-th zone of the database, from the zone at `first` on.
fn check_around_clock_changes(first: usize, step: usize) {
    let mut seen: usize = 0;
    let mut index: usize = first;
    while index < chrono_tz::TZ_VARIANTS.len() {
        let zone = Zone::from_name(chrono_tz::TZ_VARIANTS[index].name()).unwrap();
        for (change, before, after) in clock_changes(&zone, -3_155_673_600, 4_102_444_800) {
            seen += 1;
            let reach: i64 = (before - after).abs() + 1;
            for instant in [
                change - reach,
                change - reach + 1,
                change - 1,
                change,
                change + 1,
                change + reach - 1,
                change + reach,
            ] {
                let instant = at(instant);
                let local = project(&instant, &zone).naive().unwrap();
                match resolve_in(&local, &zone) {
                    ResolutionOutcome::Unique(found) => assert_eq!(found, instant),
                    ResolutionOutcome::Ambiguous(early, late) => {
                        assert!(early < late);
                        assert!(early == instant || late == instant);
                        assert_eq!(late.seconds() - early.seconds(), (before - after).abs());
                    }
                    ResolutionOutcome::NonExistent => panic!("{} {:?}", zone.name(), instant),
                }
            }
            for local in [
                change + before.min(after) - 1,
                change + before.min(after),
                change + before.max(after) - 1,
                change + before.max(after),
            ] {
                let local = NaiveTimestamp::at_seconds(local).unwrap();
                match resolve_in(&local, &zone) {
                    ResolutionOutcome::Unique(found) => {
                        assert_eq!(project(&found, &zone).naive(), Some(local))
                    }
                    ResolutionOutcome::Ambiguous(early, late) => {
                        assert!(after < before);
                        assert_eq!(project(&early, &zone).naive(), Some(local));
                        assert_eq!(project(&late, &zone).naive(), Some(local));
                    }
                    ResolutionOutcome::NonExistent => assert!(after > before),
                }
            }
        }
        index += step;
    }
    assert!(seen > 0);
}

#[test]
fn around_every_clock_change_in_zones_of_group_one() {
    check_around_clock_changes(0, 8);
}

#[test]
fn around_every_clock_change_in_zones_of_group_two() {
    check_around_clock_changes(1, 8);
}

#[test]
fn around_every_clock_change_in_zones_of_group_three() {
    check_around_clock_changes(2, 8);
}

#[test]
fn around_every_clock_change_in_zones_of_group_four() {
    check_around_clock_changes(3, 8);
}

#[test]
fn around_every_clock_change_in_zones_of_group_five() {
    check_around_clock_changes(4, 8);
}

#[test]
fn around_every_clock_change_in_zones_of_group_six() {
    check_around_clock_changes(5, 8);
}

#[test]
fn around_every_clock_change_in_zones_of_group_seven() {
    check_around_clock_changes(6, 8);
}

#[test]
fn around_every_clock_change_in_zones_of_group_eight() {
    check_around_clock_changes(7, 8);
}

#[test]
fn london_changes_its_clocks_twice_a_year() {
    let london = Zone::from_name("Europe/London").unwrap();
    let changes = clock_changes(&london, 1_609_459_200, 1_640_995_200);
    assert_eq!(changes, vec![(1_616_893_200, 0, 3600), (1_635_642_000, 3600, 0)]);
}
