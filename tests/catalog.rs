use dv_tracker::catalog::{Catalog, CatalogError, Station};
use dv_tracker::name::names_in_order;
use dv_tracker::standard_stations;

fn yard(name: &str, tracks: &[u8]) -> (String, Vec<u8>) {
    (name.to_string(), tracks.to_vec())
}

fn standard() -> Catalog {
    Catalog::new(standard_stations()).unwrap()
}

#[test]
fn standard_catalog_is_well_formed() {
    let c = standard();
    let codes: Vec<&str> = c.all_stations().iter().map(|s| s.short.as_str()).collect();
    assert_eq!(codes.len(), 20);
    assert_eq!(codes[0], "CME");
    assert_eq!(codes[18], "SM");
    assert_eq!(codes[19], "SW");
    assert_eq!(c.first().long, "Coal Mine East");
}

#[test]
fn station_new_orders_yards_by_name() {
    let s = Station::new("X", "Somewhere", vec![yard("C", &[1]), yard("A", &[2]), yard("B", &[3])]);
    let names: Vec<&str> = s.tracks.iter().map(|y| y.0.as_str()).collect();
    assert_eq!(names, vec!["A", "B", "C"]);
    assert_eq!(s.tracks[0].1, vec![2]);
    assert_eq!(s.short, "X");
    assert_eq!(s.long, "Somewhere");
}

#[test]
fn yard_names_order_by_bytes() {
    let s = Station::new("X", "X", vec![yard("b", &[1]), yard("B", &[1]), yard("AB", &[1]), yard("A", &[1])]);
    let names: Vec<String> = s.yard_names();
    assert_eq!(names, vec!["A", "AB", "B", "b"]);
}

#[test]
fn names_compare_bytewise() {
    assert!(names_in_order("A", "B"));
    assert!(!names_in_order("B", "A"));
    assert!(!names_in_order("A", "A"));
    assert!(names_in_order("A", "AB"));
    assert!(!names_in_order("AB", "A"));
    assert!(names_in_order("", "A"));
    assert!(!names_in_order("", ""));
    assert!(names_in_order("Z", "a"));
}

#[test]
fn find_yards_and_tracks() {
    let c = standard();
    let sm = "SM".to_string();
    assert_eq!(c.find(&sm).unwrap().long, "Steel Mill");
    assert!(c.find(&"XX".to_string()).is_none());
    assert_eq!(c.yards_of(&sm), vec!["A".to_string(), "B".to_string()]);
    assert_eq!(c.tracks_of(&sm, &"A".to_string()), vec![3, 4, 5, 6, 7]);
    assert_eq!(c.tracks_of(&sm, &"B".to_string()), vec![1, 2, 3, 4, 6, 7, 8]);
    assert!(c.tracks_of(&sm, &"Z".to_string()).is_empty());
    assert!(c.tracks_of(&"XX".to_string(), &"A".to_string()).is_empty());
    assert!(c.yards_of(&"XX".to_string()).is_empty());
    let hb = "HB".to_string();
    assert_eq!(c.yards_of(&hb), vec!["B", "C", "D", "E", "G"]);
}

#[test]
fn catalog_without_stations_is_refused() {
    assert_eq!(Catalog::new(vec![]).err(), Some(CatalogError::NoStations));
}

#[test]
fn catalog_with_duplicate_code_is_refused() {
    let a = Station::new("SM", "One", vec![yard("A", &[1])]);
    let b = Station::new("SM", "Two", vec![yard("A", &[1])]);
    assert_eq!(Catalog::new(vec![a, b]).err(), Some(CatalogError::DuplicateStation));
}

#[test]
fn catalog_with_yardless_station_is_refused() {
    let a = Station::new("SM", "One", vec![]);
    assert_eq!(Catalog::new(vec![a]).err(), Some(CatalogError::NoYards));
}

#[test]
fn catalog_with_duplicate_yard_is_refused() {
    let a = Station::new("SM", "One", vec![yard("A", &[1]), yard("A", &[2])]);
    assert_eq!(Catalog::new(vec![a]).err(), Some(CatalogError::UnorderedYards));
}

#[test]
fn catalog_with_unsorted_yards_is_refused() {
    let a = Station { short: "SM".to_string(), long: "One".to_string(), tracks: vec![yard("B", &[1]), yard("A", &[2])] };
    assert_eq!(Catalog::new(vec![a]).err(), Some(CatalogError::UnorderedYards));
}

#[test]
fn catalog_with_empty_yard_is_refused() {
    let a = Station::new("SM", "One", vec![yard("A", &[1]), yard("B", &[])]);
    assert_eq!(Catalog::new(vec![a]).err(), Some(CatalogError::NoTracks));
}

#[test]
fn catalog_with_unsorted_tracks_is_refused() {
    let a = Station::new("SM", "One", vec![yard("A", &[3, 1])]);
    assert_eq!(Catalog::new(vec![a]).err(), Some(CatalogError::UnorderedTracks));
    let b = Station::new("SM", "One", vec![yard("A", &[1, 1])]);
    assert_eq!(Catalog::new(vec![b]).err(), Some(CatalogError::UnorderedTracks));
}
