use dv_tracker::{
    bool_to_option, standard_stations, Catalog, DestinationKind, Direction, Kind, Order, OrderStore,
    OrderUpdate,
};

fn guids(s: &OrderStore) -> Vec<usize> {
    s.orders().iter().map(|o| o.guid).collect()
}

fn store_of(n: usize) -> OrderStore {
    let mut s = OrderStore::new();
    for _ in 0..n {
        s.add(Order::default());
    }
    s
}

fn no_change() -> OrderUpdate {
    OrderUpdate {
        id: None,
        kind: None,
        from_station: None,
        from_yard: None,
        from_track: None,
        from_done: None,
        to_station: None,
        to_yard: None,
        to_track: None,
        to_done: None,
        notes: None,
        tonnes: None,
        cars: None,
    }
}

#[test]
fn move_up_then_at_head() {
    let mut s = store_of(2);
    assert_eq!(guids(&s), vec![0, 1]);
    s.move_order(1, Direction::Up);
    assert_eq!(guids(&s), vec![1, 0]);
    s.move_order(1, Direction::Up);
    assert_eq!(guids(&s), vec![1, 0]);
}

#[test]
fn guids_increase_and_are_not_reused() {
    let mut s = OrderStore::new();
    assert_eq!(s.add(Order::default()), 0);
    assert_eq!(s.add(Order::default()), 1);
    s.remove(1);
    s.remove(0);
    assert_eq!(s.add(Order::default()), 2);
    assert_eq!(s.next_guid(), 3);
    assert_eq!(guids(&s), vec![2]);
}

#[test]
fn up_then_down_restores_order() {
    let mut s = store_of(4);
    s.move_order(2, Direction::Up);
    assert_eq!(guids(&s), vec![0, 2, 1, 3]);
    s.move_order(2, Direction::Down);
    assert_eq!(guids(&s), vec![0, 1, 2, 3]);
    s.move_order(3, Direction::Up);
    s.move_order(3, Direction::Down);
    assert_eq!(guids(&s), vec![0, 1, 2, 3]);
}

#[test]
fn up_then_down_at_head_does_not_restore() {
    let mut s = store_of(3);
    s.move_order(0, Direction::Up);
    assert_eq!(guids(&s), vec![0, 1, 2]);
    s.move_order(0, Direction::Down);
    assert_eq!(guids(&s), vec![1, 0, 2]);
}

#[test]
fn down_at_tail_is_a_no_op() {
    let mut s = store_of(3);
    s.move_order(2, Direction::Down);
    assert_eq!(guids(&s), vec![0, 1, 2]);
}

#[test]
fn absent_guid_changes_nothing() {
    let c = Catalog::new(standard_stations()).unwrap();
    let mut s = store_of(3);
    s.remove(1);
    s.remove(1);
    s.remove(42);
    s.move_order(42, Direction::Up);
    s.move_order(1, Direction::Down);
    let mut u = no_change();
    u.notes = Some("x".to_string());
    s.update(42, u, &c);
    assert_eq!(guids(&s), vec![0, 2]);
    assert!(s.orders().iter().all(|o| o.notes.is_empty()));
}

#[test]
fn update_applies_fields_and_repairs() {
    let c = Catalog::new(standard_stations()).unwrap();
    let mut s = OrderStore::new();
    let g = s.create(&c);
    let mut u = no_change();
    u.id = Some(7);
    u.kind = Some(Kind::SU);
    u.from_station = Some("CW".to_string());
    u.to_yard = Some("B".to_string());
    u.to_done = Some(true);
    u.notes = Some("coal".to_string());
    u.tonnes = Some(400);
    u.cars = Some(9);
    s.update(g, u, &c);
    let o = s.get(g).unwrap();
    assert_eq!(o.guid, g);
    assert_eq!(o.id, 7);
    assert_eq!(o.kind, Kind::SU);
    assert_eq!((o.from.station.as_str(), o.from.yard.as_str(), o.from.track), ("CW", "A", 3));
    assert_eq!((o.to.station.as_str(), o.to.yard.as_str(), o.to.track, o.to.done), ("SM", "B", 3, true));
    assert_eq!(o.notes, "coal");
    assert_eq!((o.tonnes, o.cars), (400, 9));
}

#[test]
fn update_to_unknown_track_repairs() {
    let c = Catalog::new(standard_stations()).unwrap();
    let mut s = OrderStore::new();
    let g = s.create(&c);
    let mut u = no_change();
    u.from_track = Some(200);
    s.update(g, u, &c);
    assert_eq!(s.get(g).unwrap().from.track, 3);
}

#[test]
fn created_orders_have_valid_defaults() {
    let c = Catalog::new(standard_stations()).unwrap();
    let mut s = OrderStore::new();
    assert_eq!(s.create(&c), 0);
    assert_eq!(s.create(&c), 1);
    let o = &s.orders()[1];
    assert_eq!(o.guid, 1);
    assert_eq!((o.from.station.as_str(), o.from.yard.as_str(), o.from.track), ("SM", "A", 3));
    assert!(c.tracks_of(&o.to.station, &o.to.yard).contains(&o.to.track));
    assert_eq!(o.kind, Kind::FH);
    assert_eq!((o.id, o.tonnes, o.cars), (0, 0, 0));
}

#[test]
fn order_default_fields() {
    let o = Order::default();
    assert_eq!(o.guid, 0);
    assert_eq!(o.kind, Kind::FH);
    assert_eq!(o.from.station, "SM");
    assert_eq!(o.to.yard, "A");
    assert!(!o.to.done);
    assert!(o.notes.is_empty());
}

#[test]
fn kinds_and_directions_by_name() {
    assert_eq!(Kind::from_code(&"LH".to_string()), Some(Kind::LH));
    assert_eq!(Kind::from_code(&"FH".to_string()), Some(Kind::FH));
    assert_eq!(Kind::from_code(&"SU".to_string()), Some(Kind::SU));
    assert_eq!(Kind::from_code(&"fh".to_string()), None);
    assert_eq!(Kind::SU.code(), "SU");
    assert_eq!(Kind::all(), vec![Kind::FH, Kind::LH, Kind::SU]);
    assert_eq!(Direction::from_name(&"up".to_string()), Some(Direction::Up));
    assert_eq!(Direction::from_name(&"down".to_string()), Some(Direction::Down));
    assert_eq!(Direction::from_name(&"left".to_string()), None);
    assert_eq!(DestinationKind::From.label(), "from");
    assert_eq!(DestinationKind::To.label(), "to");
}

#[test]
fn bool_to_option_maps_false_to_none() {
    assert_eq!(bool_to_option(true), Some(true));
    assert_eq!(bool_to_option(false), None);
}
