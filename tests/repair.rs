use dv_tracker::catalog::{Catalog, Station};
use dv_tracker::{standard_stations, Destination};

fn dest(station: &str, yard: &str, track: u8, done: bool) -> Destination {
    Destination { station: station.to_string(), yard: yard.to_string(), track, done }
}

fn fields(d: &Destination) -> (String, String, u8, bool) {
    (d.station.clone(), d.yard.clone(), d.track, d.done)
}

fn repaired(d: Destination, c: &Catalog) -> (String, String, u8, bool) {
    let mut d = d;
    d.make_valid(c);
    fields(&d)
}

fn small() -> Catalog {
    let y = |n: &str, t: &[u8]| (n.to_string(), t.to_vec());
    Catalog::new(vec![
        Station::new("CME", "Coal Mine East", vec![y("A", &[3]), y("B", &[1, 2, 3, 5]), y("C", &[1, 3])]),
        Station::new("SM", "Steel Mill", vec![y("B", &[1, 2, 3, 4, 6, 7, 8]), y("A", &[3, 4, 5, 6, 7])]),
    ])
    .unwrap()
}

#[test]
fn unknown_track_takes_first_track_of_yard() {
    let c = small();
    assert_eq!(repaired(dest("SM", "A", 99, false), &c), ("SM".into(), "A".into(), 3, false));
}

#[test]
fn unknown_yard_takes_first_yard_and_track() {
    let c = small();
    assert_eq!(repaired(dest("SM", "Z", 1, false), &c), ("SM".into(), "A".into(), 3, false));
}

#[test]
fn unknown_station_takes_first_station() {
    let c = small();
    assert_eq!(repaired(dest("XX", "A", 1, false), &c), ("CME".into(), "A".into(), 3, false));
    assert_eq!(repaired(dest("XX", "B", 2, true), &c), ("CME".into(), "A".into(), 3, true));
}

#[test]
fn scenarios_hold_on_standard_catalog() {
    let c = Catalog::new(standard_stations()).unwrap();
    assert_eq!(repaired(dest("SM", "A", 99, false), &c), ("SM".into(), "A".into(), 3, false));
    assert_eq!(repaired(dest("SM", "Z", 1, false), &c), ("SM".into(), "A".into(), 3, false));
    assert_eq!(repaired(dest("XX", "A", 1, false), &c), ("CME".into(), "A".into(), 3, false));
    assert_eq!(repaired(dest("HB", "A", 1, false), &c), ("HB".into(), "B".into(), 1, false));
}

#[test]
fn valid_destination_is_unchanged() {
    let c = small();
    assert_eq!(repaired(dest("SM", "B", 8, true), &c), ("SM".into(), "B".into(), 8, true));
    assert_eq!(repaired(dest("CME", "C", 3, false), &c), ("CME".into(), "C".into(), 3, false));
}

#[test]
fn repair_result_exists_in_catalog() {
    let c = Catalog::new(standard_stations()).unwrap();
    let inputs = [
        dest("", "", 0, false),
        dest("SM", "A", 0, false),
        dest("FRC", "A", 1, false),
        dest("OR", "B", 1, false),
        dest("sm", "a", 255, true),
    ];
    for d in inputs {
        let (s, y, t, _) = repaired(d, &c);
        assert!(c.tracks_of(&s, &y).contains(&t));
    }
}

#[test]
fn repair_twice_equals_repair_once() {
    let c = small();
    for d in [dest("XX", "Q", 9, false), dest("SM", "Z", 0, true), dest("SM", "B", 5, false), dest("CME", "B", 5, false)] {
        let once = repaired(d, &c);
        let twice = repaired(dest(&once.0, &once.1, once.2, once.3), &c);
        assert_eq!(once, twice);
    }
}

#[test]
fn repaired_leaves_the_original_alone() {
    let c = small();
    let d = dest("SM", "Z", 1, true);
    let r = d.repaired(&c);
    assert_eq!(fields(&r), ("SM".into(), "A".into(), 3, true));
    assert_eq!(fields(&d), ("SM".into(), "Z".into(), 1, true));
}
