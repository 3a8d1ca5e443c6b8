//! Destinations, and their repair against a catalog.
use vstd::prelude::*;
use crate::catalog::{
    Catalog, StationView, catalog_wf, has_station, has_yard, station_of, tracks_in,
    lemma_station_wf_of, station_wf, yard_wf,
};

verus! {

/// A location reference: a station code, a yard of it, a track of that yard,
/// and whether the work there is done.
pub struct Destination {
    pub station: String,
    pub yard: String,
    pub track: u8,
    pub done: bool,
}

/// A destination as a value.
pub struct DestinationView {
    pub station: Seq<char>,
    pub yard: Seq<char>,
    pub track: u8,
    pub done: bool,
}

impl View for Destination {
    type V = DestinationView;

    open spec fn view(&self) -> DestinationView {
        DestinationView {
            station: self.station@,
            yard: self.yard@,
            track: self.track,
            done: self.done,
        }
    }
}

/// The station, the yard and the track all exist in the catalog.
pub open spec fn is_valid(d: DestinationView, cat: Seq<StationView>) -> bool {
    &&& has_station(cat, d.station)
    &&& has_yard(station_of(cat, d.station), d.yard)
    &&& tracks_in(station_of(cat, d.station), d.yard).contains(d.track)
}

/// `d` moved to the first yard of station `s`, on that yard's first track.
pub open spec fn at_first_yard(d: DestinationView, s: StationView) -> DestinationView {
    DestinationView {
        station: s.code,
        yard: s.yards[0].name,
        track: s.yards[0].tracks[0],
        done: d.done,
    }
}

/// The repair of `d`: an unknown station gives the catalog's first station, on
/// its first yard and first track; an unknown yard gives the station's first
/// yard and its first track; an unknown track gives the yard's first track;
/// a valid destination stays as it is. `done` is kept throughout.
pub open spec fn repair(d: DestinationView, cat: Seq<StationView>) -> DestinationView {
    if !has_station(cat, d.station) {
        at_first_yard(d, cat[0])
    } else if !has_yard(station_of(cat, d.station), d.yard) {
        at_first_yard(d, station_of(cat, d.station))
    } else if !tracks_in(station_of(cat, d.station), d.yard).contains(d.track) {
        DestinationView { track: tracks_in(station_of(cat, d.station), d.yard)[0], ..d }
    } else {
        d
    }
}

/// The first yard of a station of a well-formed catalog, on its first track,
/// is a valid destination.
proof fn lemma_first_yard_valid(d: DestinationView, cat: Seq<StationView>, i: int)
    requires
        catalog_wf(cat),
        0 <= i < cat.len(),
    ensures
        is_valid(at_first_yard(d, cat[i]), cat),
{
    let s = cat[i];
    let r = at_first_yard(d, s);
    assert(station_wf(s));
    assert(has_station(cat, s.code));
    let j = choose|j: int| 0 <= j < cat.len() && #[trigger] cat[j].code == s.code;
    assert(j == i) by {
        if j != i {
            assert(cat[j].code != cat[i].code);
        }
    }
    assert(has_yard(s, s.yards[0].name));
    let k = choose|k: int| 0 <= k < s.yards.len() && #[trigger] s.yards[k].name == s.yards[0].name;
    assert(k == 0) by {
        if k != 0 {
            assert(s.yards[k].name != s.yards[0].name);
        }
    }
    assert(yard_wf(s.yards[0]));
    assert(tracks_in(s, r.yard)[0] == r.track);
}

/// Repair always yields a destination whose station, yard and track exist in
/// the catalog.
pub proof fn lemma_repair_valid(d: DestinationView, cat: Seq<StationView>)
    requires
        catalog_wf(cat),
    ensures
        is_valid(repair(d, cat), cat),
{
    if !has_station(cat, d.station) {
        lemma_first_yard_valid(d, cat, 0);
    } else {
        let i = choose|i: int| 0 <= i < cat.len() && #[trigger] cat[i].code == d.station;
        lemma_station_wf_of(cat, d.station);
        if !has_yard(station_of(cat, d.station), d.yard) {
            lemma_first_yard_valid(d, cat, i);
        } else {
            let s = station_of(cat, d.station);
            let k = choose|k: int| 0 <= k < s.yards.len() && #[trigger] s.yards[k].name == d.yard;
            assert(yard_wf(s.yards[k]));
            assert(tracks_in(s, d.yard).contains(tracks_in(s, d.yard)[0]));
        }
    }
}

/// A valid destination is its own repair.
pub proof fn lemma_repair_keeps_valid(d: DestinationView, cat: Seq<StationView>)
    requires
        is_valid(d, cat),
    ensures
        repair(d, cat) == d,
{
}

/// Repairing twice gives what repairing once gives.
pub proof fn lemma_repair_idempotent(d: DestinationView, cat: Seq<StationView>)
    requires
        catalog_wf(cat),
    ensures
        repair(repair(d, cat), cat) == repair(d, cat),
{
    lemma_repair_valid(d, cat);
    lemma_repair_keeps_valid(repair(d, cat), cat);
}

impl Destination {
    /// The repair of this destination against the catalog, as a new value.
    pub fn repaired(&self, catalog: &Catalog) -> (r: Destination)
        requires
            catalog.wf(),
        ensures
            r@ == repair(self@, catalog@),
    {
        let mut r = Destination {
            station: self.station.clone(),
            yard: self.yard.clone(),
            track: self.track,
            done: self.done,
        };
        r.make_valid(catalog);
        r
    }

    /// Repairs the destination against the catalog; see `repair`.
    pub fn make_valid(&mut self, catalog: &Catalog)
        requires
            catalog.wf(),
        ensures
            final(self)@ == repair(old(self)@, catalog@),
    {
        match catalog.find(&self.station) {
            Some(st) => {
                proof {
                    lemma_station_wf_of(catalog@, self.station@);
                }
                match st.yard(&self.yard) {
                    Some(tracks) => {
                        proof {
                            let s = st@;
                            let k = choose|k: int|
                                0 <= k < s.yards.len() && #[trigger] s.yards[k].name == self.yard@;
                            assert(yard_wf(s.yards[k]));
                        }
                        if !contains_track(tracks, self.track) {
                            self.track = tracks[0];
                        }
                    },
                    None => {
                        assert(yard_wf(st@.yards[0]));
                        self.yard = st.tracks[0].0.clone();
                        self.track = st.tracks[0].1[0];
                    },
                }
            },
            None => {
                let first = catalog.first();
                assert(station_wf(catalog@[0]));
                assert(yard_wf(first@.yards[0]));
                self.station = first.short.clone();
                self.yard = first.tracks[0].0.clone();
                self.track = first.tracks[0].1[0];
            },
        }
    }
}

/// Whether `track` is one of `tracks`.
fn contains_track(tracks: &Vec<u8>, track: u8) -> (r: bool)
    ensures
        r == tracks@.contains(track),
{
    for i in 0..tracks.len()
        invariant
            forall|k: int| 0 <= k < i ==> tracks@[k] != track,
    {
        if tracks[i] == track {
            assert(tracks@[i as int] == track);
            return true;
        }
    }
    false
}

} // verus!
