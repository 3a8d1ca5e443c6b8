//! Orders: an identifier, a kind, two destinations and free-form metadata.
use vstd::prelude::*;
use crate::catalog::{Catalog, StationView};
use crate::destination::{Destination, DestinationView, repair};

verus! {

/// The classification of an order.
#[derive(Debug, Clone, Copy, PartialEq, Eq, Structural)]
pub enum Kind {
    FH,
    LH,
    SU,
}

/// The kind whose code is `s`, if any.
pub open spec fn kind_named(s: Seq<char>) -> Option<Kind> {
    if s == "FH"@ {
        Some(Kind::FH)
    } else if s == "LH"@ {
        Some(Kind::LH)
    } else if s == "SU"@ {
        Some(Kind::SU)
    } else {
        None
    }
}

pub open spec fn kind_code(k: Kind) -> Seq<char> {
    match k {
        Kind::FH => "FH"@,
        Kind::LH => "LH"@,
        Kind::SU => "SU"@,
    }
}

impl Kind {
    /// Every kind, in display order.
    pub fn all() -> (r: Vec<Kind>)
        ensures
            r@ == seq![Kind::FH, Kind::LH, Kind::SU],
    {
        let r = vec![Kind::FH, Kind::LH, Kind::SU];
        assert(r@ =~= seq![Kind::FH, Kind::LH, Kind::SU]);
        r
    }

    /// The kind's code.
    pub fn code(&self) -> (r: &'static str)
        ensures
            r@ == kind_code(*self),
    {
        match self {
            Kind::FH => "FH",
            Kind::LH => "LH",
            Kind::SU => "SU",
        }
    }

    /// The kind with the given code, if there is one.
    pub fn from_code(code: &String) -> (r: Option<Kind>)
        ensures
            r == kind_named(code@),
    {
        if *code == "FH".to_owned() {
            Some(Kind::FH)
        } else if *code == "LH".to_owned() {
            Some(Kind::LH)
        } else if *code == "SU".to_owned() {
            Some(Kind::SU)
        } else {
            None
        }
    }
}

/// Which of an order's two destinations is meant.
#[derive(Debug, Clone, Copy, PartialEq, Eq, Structural)]
pub enum DestinationKind {
    From,
    To,
}

impl DestinationKind {
    /// The word that names this destination in field names.
    pub fn label(&self) -> (r: &'static str)
        ensures
            r@ == (match self {
                DestinationKind::From => "from"@,
                DestinationKind::To => "to"@,
            }),
    {
        match self {
            DestinationKind::From => "from",
            DestinationKind::To => "to",
        }
    }
}

/// `Some(true)` for `true`, `None` for `false`: the shape of an attribute
/// that is present or absent.
pub fn bool_to_option(b: bool) -> (r: Option<bool>)
    ensures
        r == (if b { Some(true) } else { None::<bool> }),
{
    match b {
        true => Some(true),
        false => None,
    }
}

impl Default for Destination {
    /// The designated default: station SM, yard A, track 3, not done.
    fn default() -> (r: Destination)
        ensures
            r.station@ == "SM"@,
            r.yard@ == "A"@,
            r.track == 3,
            !r.done,
    {
        Destination { station: "SM".to_owned(), yard: "A".to_owned(), track: 3, done: false }
    }
}

/// A unit of work: a store-assigned guid, a user-facing id, a kind, where it
/// comes from and where it goes, and notes, tonnes and car count.
pub struct Order {
    pub guid: usize,
    pub id: u8,
    pub kind: Kind,
    pub from: Destination,
    pub to: Destination,
    pub notes: String,
    pub tonnes: u16,
    pub cars: u16,
}

/// An order as a value.
pub struct OrderView {
    pub guid: usize,
    pub id: u8,
    pub kind: Kind,
    pub from: DestinationView,
    pub to: DestinationView,
    pub notes: Seq<char>,
    pub tonnes: u16,
    pub cars: u16,
}

impl View for Order {
    type V = OrderView;

    open spec fn view(&self) -> OrderView {
        OrderView {
            guid: self.guid,
            id: self.id,
            kind: self.kind,
            from: self.from@,
            to: self.to@,
            notes: self.notes@,
            tonnes: self.tonnes,
            cars: self.cars,
        }
    }
}

impl Default for Order {
    /// Guid 0, id 0, kind FH, default destinations, no notes, zero tonnes
    /// and cars.
    fn default() -> (r: Order)
        ensures
            r.guid == 0,
            r.id == 0,
            r.kind == Kind::FH,
            r.from@ == (DestinationView { station: "SM"@, yard: "A"@, track: 3, done: false }),
            r.to@ == (DestinationView { station: "SM"@, yard: "A"@, track: 3, done: false }),
            r.notes@.len() == 0,
            r.tonnes == 0,
            r.cars == 0,
    {
        Order {
            guid: 0,
            id: 0,
            kind: Kind::FH,
            from: Destination::default(),
            to: Destination::default(),
            notes: String::new(),
            tonnes: 0,
            cars: 0,
        }
    }
}

/// A partial update of an order: each field that is `Some` replaces the
/// order's field.
pub struct OrderUpdate {
    pub id: Option<u8>,
    pub kind: Option<Kind>,
    pub from_station: Option<String>,
    pub from_yard: Option<String>,
    pub from_track: Option<u8>,
    pub from_done: Option<bool>,
    pub to_station: Option<String>,
    pub to_yard: Option<String>,
    pub to_track: Option<u8>,
    pub to_done: Option<bool>,
    pub notes: Option<String>,
    pub tonnes: Option<u16>,
    pub cars: Option<u16>,
}

pub open spec fn or_keep<T>(o: Option<T>, v: T) -> T {
    match o {
        Some(x) => x,
        None => v,
    }
}

pub open spec fn or_keep_text(o: Option<String>, v: Seq<char>) -> Seq<char> {
    match o {
        Some(x) => x@,
        None => v,
    }
}

/// A destination with the given fields replaced, before repair.
pub open spec fn patched(
    d: DestinationView,
    station: Option<String>,
    yard: Option<String>,
    track: Option<u8>,
    done: Option<bool>,
) -> DestinationView {
    DestinationView {
        station: or_keep_text(station, d.station),
        yard: or_keep_text(yard, d.yard),
        track: or_keep(track, d.track),
        done: or_keep(done, d.done),
    }
}

/// The order `o` after the update `u`, both destinations repaired against
/// `cat`; the guid never changes.
pub open spec fn updated(o: OrderView, u: OrderUpdate, cat: Seq<StationView>) -> OrderView {
    OrderView {
        guid: o.guid,
        id: or_keep(u.id, o.id),
        kind: or_keep(u.kind, o.kind),
        from: repair(patched(o.from, u.from_station, u.from_yard, u.from_track, u.from_done), cat),
        to: repair(patched(o.to, u.to_station, u.to_yard, u.to_track, u.to_done), cat),
        notes: or_keep_text(u.notes, o.notes),
        tonnes: or_keep(u.tonnes, o.tonnes),
        cars: or_keep(u.cars, o.cars),
    }
}

/// Replaces the destination's fields that are given.
fn patch(
    d: &mut Destination,
    station: Option<String>,
    yard: Option<String>,
    track: Option<u8>,
    done: Option<bool>,
)
    ensures
        final(d)@ == patched(old(d)@, station, yard, track, done),
{
    if let Some(v) = station {
        d.station = v;
    }
    if let Some(v) = yard {
        d.yard = v;
    }
    if let Some(v) = track {
        d.track = v;
    }
    if let Some(v) = done {
        d.done = v;
    }
}

impl Order {
    /// Repairs both destinations against the catalog.
    pub fn make_valid(&mut self, catalog: &Catalog)
        requires
            catalog.wf(),
        ensures
            final(self)@ == (OrderView {
                from: repair(old(self)@.from, catalog@),
                to: repair(old(self)@.to, catalog@),
                ..old(self)@
            }),
    {
        self.from.make_valid(catalog);
        self.to.make_valid(catalog);
    }

    /// Applies a partial update, then repairs both destinations.
    pub fn apply(&mut self, u: OrderUpdate, catalog: &Catalog)
        requires
            catalog.wf(),
        ensures
            final(self)@ == updated(old(self)@, u, catalog@),
    {
        let OrderUpdate {
            id, kind, from_station, from_yard, from_track, from_done,
            to_station, to_yard, to_track, to_done, notes, tonnes, cars,
        } = u;
        if let Some(v) = id {
            self.id = v;
        }
        if let Some(v) = kind {
            self.kind = v;
        }
        patch(&mut self.from, from_station, from_yard, from_track, from_done);
        patch(&mut self.to, to_station, to_yard, to_track, to_done);
        if let Some(v) = notes {
            self.notes = v;
        }
        if let Some(v) = tonnes {
            self.tonnes = v;
        }
        if let Some(v) = cars {
            self.cars = v;
        }
        self.make_valid(catalog);
    }
}

} // verus!
