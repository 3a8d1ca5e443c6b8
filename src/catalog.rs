//! The catalog: stations, each with named yards, each yard with its tracks.
use vstd::prelude::*;
use itertools::Itertools;
use crate::name::{name_lt, names_in_order};

verus! {

/// What a yard is, as a value: its name and its track numbers.
pub struct YardView {
    pub name: Seq<char>,
    pub tracks: Seq<u8>,
}

/// What a station is, as a value: its code, its long name, and its yards in
/// the order in which the station keeps them.
pub struct StationView {
    pub code: Seq<char>,
    pub name: Seq<char>,
    pub yards: Seq<YardView>,
}

pub open spec fn yard_view(y: (String, Vec<u8>)) -> YardView {
    YardView { name: y.0@, tracks: y.1@ }
}

/// A station of the catalog. `tracks` maps each yard's name to its track
/// numbers; a station made by `Station::new` keeps its yards ordered by name.
pub struct Station {
    pub short: String,
    pub long: String,
    pub tracks: Vec<(String, Vec<u8>)>,
}

impl View for Station {
    type V = StationView;

    open spec fn view(&self) -> StationView {
        StationView {
            code: self.short@,
            name: self.long@,
            yards: self.tracks@.map_values(|y: (String, Vec<u8>)| yard_view(y)),
        }
    }
}

/// Each track number is below the next one.
pub open spec fn tracks_ascending(t: Seq<u8>) -> bool {
    forall|i: int| 0 <= i && i + 1 < t.len() ==> #[trigger] t[i] < t[i + 1]
}

/// Each yard's name comes before the next one's.
pub open spec fn yards_ascending(ys: Seq<YardView>) -> bool {
    forall|i: int| 0 <= i && i + 1 < ys.len() ==> name_lt(#[trigger] ys[i].name, ys[i + 1].name)
}

pub open spec fn yard_names_distinct(ys: Seq<YardView>) -> bool {
    forall|i: int, j: int|
        0 <= i < ys.len() && 0 <= j < ys.len() && i != j ==> #[trigger] ys[i].name
            != #[trigger] ys[j].name
}

/// A yard has a track, and its tracks ascend.
pub open spec fn yard_wf(y: YardView) -> bool {
    y.tracks.len() > 0 && tracks_ascending(y.tracks)
}

/// A station has a yard, its yards have distinct names in ascending order,
/// and each yard is well formed.
pub open spec fn station_wf(s: StationView) -> bool {
    &&& s.yards.len() > 0
    &&& yards_ascending(s.yards)
    &&& yard_names_distinct(s.yards)
    &&& forall|k: int| 0 <= k < s.yards.len() ==> yard_wf(#[trigger] s.yards[k])
}

pub open spec fn codes_distinct(cat: Seq<StationView>) -> bool {
    forall|i: int, j: int|
        0 <= i < cat.len() && 0 <= j < cat.len() && i != j ==> #[trigger] cat[i].code
            != #[trigger] cat[j].code
}

/// A catalog has a station, distinct station codes, and well-formed stations.
pub open spec fn catalog_wf(cat: Seq<StationView>) -> bool {
    &&& cat.len() > 0
    &&& codes_distinct(cat)
    &&& forall|i: int| 0 <= i < cat.len() ==> station_wf(#[trigger] cat[i])
}

pub open spec fn has_station(cat: Seq<StationView>, code: Seq<char>) -> bool {
    exists|i: int| 0 <= i < cat.len() && #[trigger] cat[i].code == code
}

/// The station with the given code (meaningful where `has_station` holds).
pub open spec fn station_of(cat: Seq<StationView>, code: Seq<char>) -> StationView {
    cat[choose|i: int| 0 <= i < cat.len() && #[trigger] cat[i].code == code]
}

pub open spec fn has_yard(s: StationView, yard: Seq<char>) -> bool {
    exists|k: int| 0 <= k < s.yards.len() && #[trigger] s.yards[k].name == yard
}

/// The tracks of the named yard of a station (meaningful where `has_yard` holds).
pub open spec fn tracks_in(s: StationView, yard: Seq<char>) -> Seq<u8> {
    s.yards[choose|k: int| 0 <= k < s.yards.len() && #[trigger] s.yards[k].name == yard].tracks
}

/// Why a list of stations cannot form a catalog.
#[derive(Debug, Clone, Copy, PartialEq, Eq, Structural)]
pub enum CatalogError {
    /// There is no station at all.
    NoStations,
    /// Two stations share a code.
    DuplicateStation,
    /// A station has no yard.
    NoYards,
    /// A station's yard names are not distinct and ascending.
    UnorderedYards,
    /// A yard has no track.
    NoTracks,
    /// A yard's track numbers are not strictly ascending.
    UnorderedTracks,
}

/// `e` describes a fault of station `s`.
pub open spec fn station_fault(s: StationView, e: CatalogError) -> bool {
    match e {
        CatalogError::NoYards => s.yards.len() == 0,
        CatalogError::UnorderedYards => !(yards_ascending(s.yards) && yard_names_distinct(s.yards)),
        CatalogError::NoTracks => exists|k: int|
            0 <= k < s.yards.len() && (#[trigger] s.yards[k]).tracks.len() == 0,
        CatalogError::UnorderedTracks => exists|k: int|
            0 <= k < s.yards.len() && !tracks_ascending((#[trigger] s.yards[k]).tracks),
        _ => false,
    }
}

/// `e` describes a fault of the list of stations `cat`.
pub open spec fn catalog_fault(cat: Seq<StationView>, e: CatalogError) -> bool {
    match e {
        CatalogError::NoStations => cat.len() == 0,
        CatalogError::DuplicateStation => !codes_distinct(cat),
        _ => exists|i: int| 0 <= i < cat.len() && station_fault(#[trigger] cat[i], e),
    }
}

pub open spec fn views_of(stations: Seq<Station>) -> Seq<StationView> {
    stations.map_values(|s: Station| s@)
}

/// Relies on itertools::Itertools::sorted_by_key: a stable sort of all the
/// items, ascending by key. The key is the yard's name, and `String` orders by
/// its UTF-8 bytes.
#[verifier::external_body]
fn sort_by_name(yards: Vec<(String, Vec<u8>)>) -> (r: Vec<(String, Vec<u8>)>)
    ensures
        r@.to_multiset() == yards@.to_multiset(),
        forall|i: int, j: int| 0 <= i < j < r@.len() ==> !name_lt(r@[j].0@, r@[i].0@),
{
    yards.into_iter().sorted_by_key(|y| y.0.clone()).collect()
}

/// The station found by code in a well-formed catalog is well formed.
pub proof fn lemma_station_wf_of(cat: Seq<StationView>, code: Seq<char>)
    requires
        catalog_wf(cat),
        has_station(cat, code),
    ensures
        station_wf(station_of(cat, code)),
{
    let i = choose|i: int| 0 <= i < cat.len() && #[trigger] cat[i].code == code;
    assert(station_wf(cat[i]));
}

impl Station {
    /// The names of the yards, in the order the station keeps them.
    pub fn yard_names(&self) -> (r: Vec<String>)
        ensures
            r@.map_values(|y: String| y@) == self@.yards.map_values(|y: YardView| y.name),
    {
        let mut r: Vec<String> = Vec::new();
        for i in 0..self.tracks.len()
            invariant
                r@.len() == i,
                forall|k: int| 0 <= k < i ==> #[trigger] r@[k]@ == self.tracks@[k].0@,
        {
            r.push(self.tracks[i].0.clone());
        }
        assert(r@.map_values(|y: String| y@) =~= self@.yards.map_values(|y: YardView| y.name));
        r
    }

    /// The tracks of the yard with the given name, if the station has one.
    pub fn yard(&self, name: &String) -> (r: Option<&Vec<u8>>)
        requires
            yard_names_distinct(self@.yards),
        ensures
            r is Some <==> has_yard(self@, name@),
            r matches Some(t) ==> t@ == tracks_in(self@, name@),
    {
        let ghost ys = self@.yards;
        for k in 0..self.tracks.len()
            invariant
                ys == self@.yards,
                yard_names_distinct(ys),
                forall|p: int| 0 <= p < k ==> (#[trigger] ys[p]).name != name@,
        {
            if self.tracks[k].0 == *name {
                assert(ys[k as int].name == name@);
                let ghost j = choose|j: int| 0 <= j < ys.len() && #[trigger] ys[j].name == name@;
                assert(j == k) by {
                    if j != k {
                        assert(ys[j].name != ys[k as int].name);
                    }
                }
                return Some(&self.tracks[k].1);
            }
        }
        None
    }

    /// A station with the given code, long name and yards; the yards are put
    /// in ascending order of their names.
    pub fn new(short: &str, long: &str, tracks: Vec<(String, Vec<u8>)>) -> (r: Station)
        ensures
            r.short@ == short@,
            r.long@ == long@,
            r.tracks@.to_multiset() == tracks@.to_multiset(),
            forall|i: int, j: int|
                0 <= i < j < r.tracks@.len() ==> !name_lt(r.tracks@[j].0@, r.tracks@[i].0@),
    {
        Station { short: short.to_owned(), long: long.to_owned(), tracks: sort_by_name(tracks) }
    }
}

/// The fault of a yard's tracks, or `None` where they are well formed.
fn check_tracks(t: &Vec<u8>) -> (r: Option<CatalogError>)
    ensures
        r is None <==> yard_wf(YardView { name: Seq::empty(), tracks: t@ }),
        r matches Some(e) ==> (e == CatalogError::NoTracks && t@.len() == 0) || (e
            == CatalogError::UnorderedTracks && !tracks_ascending(t@)),
{
    if t.len() == 0 {
        return Some(CatalogError::NoTracks);
    }
    for j in 1..t.len()
        invariant
            t@.len() > 0,
            forall|m: int| 0 <= m && m + 1 < j ==> #[trigger] t@[m] < t@[m + 1],
    {
        if t[j - 1] >= t[j] {
            assert(t@[j - 1] >= t@[(j - 1) + 1]);
            return Some(CatalogError::UnorderedTracks);
        }
    }
    None
}

/// The first fault of a station, or `None` where the station is well formed.
fn check_station(s: &Station) -> (r: Option<CatalogError>)
    ensures
        r is None <==> station_wf(s@),
        r matches Some(e) ==> station_fault(s@, e),
{
    let ghost ys = s@.yards;
    let n = s.tracks.len();
    if n == 0 {
        return Some(CatalogError::NoYards);
    }
    let mut i: usize = 0;
    while i + 1 < n
        invariant
            n == s.tracks@.len(),
            ys == s@.yards,
            0 <= i < n,
            forall|k: int| 0 <= k < i ==> name_lt(#[trigger] ys[k].name, ys[k + 1].name),
        decreases n - i,
    {
        if !names_in_order(s.tracks[i].0.as_str(), s.tracks[i + 1].0.as_str()) {
            assert(!name_lt(ys[i as int].name, ys[i + 1].name));
            return Some(CatalogError::UnorderedYards);
        }
        i = i + 1;
    }
    assert(yards_ascending(ys));
    for a in 0..n
        invariant
            n == s.tracks@.len(),
            ys == s@.yards,
            yards_ascending(ys),
            forall|p: int, q: int|
                0 <= p < a && 0 <= q < n && p != q ==> #[trigger] ys[p].name != #[trigger] ys[q].name,
    {
        for b in 0..n
            invariant
                n == s.tracks@.len(),
                ys == s@.yards,
                yards_ascending(ys),
                0 <= a < n,
                forall|p: int, q: int|
                    0 <= p < a && 0 <= q < n && p != q ==> #[trigger] ys[p].name
                        != #[trigger] ys[q].name,
                forall|q: int| 0 <= q < b && a != q ==> ys[a as int].name != #[trigger] ys[q].name,
        {
            if a != b && s.tracks[a].0 == s.tracks[b].0 {
                assert(ys[a as int].name == ys[b as int].name);
                assert(!yard_names_distinct(ys));
                return Some(CatalogError::UnorderedYards);
            }
        }
    }
    assert(yard_names_distinct(ys));
    for k in 0..n
        invariant
            n == s.tracks@.len(),
            ys == s@.yards,
            yards_ascending(ys),
            yard_names_distinct(ys),
            forall|m: int| 0 <= m < k ==> yard_wf(#[trigger] ys[m]),
    {
        let r = check_tracks(&s.tracks[k].1);
        assert(ys[k as int].tracks == s.tracks@[k as int].1@);
        match r {
            Some(e) => {
                assert(!yard_wf(ys[k as int]));
                assert(station_fault(s@, e));
                return Some(e);
            },
            None => {
                assert(yard_wf(ys[k as int]));
            },
        }
    }
    None
}

/// The stations of a catalog. Every station has a yard, every yard a track,
/// station codes are distinct, yards are in ascending order of distinct names,
/// and each yard's tracks ascend.
pub struct Catalog {
    stations: Vec<Station>,
}

impl View for Catalog {
    type V = Seq<StationView>;

    closed spec fn view(&self) -> Seq<StationView> {
        views_of(self.stations@)
    }
}

impl Catalog {
    pub open spec fn wf(&self) -> bool {
        catalog_wf(self@)
    }

    /// The stations, in the catalog's canonical order.
    pub fn all_stations(&self) -> (r: &[Station])
        ensures
            views_of(r@) == self@,
    {
        self.stations.as_slice()
    }

    /// The first station in the catalog's canonical order.
    pub fn first(&self) -> (r: &Station)
        requires
            self.wf(),
        ensures
            r@ == self@[0],
    {
        &self.stations[0]
    }

    /// The station with the given code, if there is one.
    pub fn find(&self, code: &String) -> (r: Option<&Station>)
        requires
            self.wf(),
        ensures
            r is Some <==> has_station(self@, code@),
            r matches Some(st) ==> st@ == station_of(self@, code@),
    {
        let ghost v = self@;
        for i in 0..self.stations.len()
            invariant
                v == self@,
                v == views_of(self.stations@),
                catalog_wf(v),
                forall|p: int| 0 <= p < i ==> (#[trigger] v[p]).code != code@,
        {
            if self.stations[i].short == *code {
                assert(v[i as int].code == code@);
                let ghost j = choose|j: int| 0 <= j < v.len() && #[trigger] v[j].code == code@;
                assert(j == i) by {
                    if j != i {
                        assert(v[j].code != v[i as int].code);
                    }
                }
                return Some(&self.stations[i]);
            }
        }
        None
    }

    /// The yard names of the station with the given code, in ascending order;
    /// empty where there is no such station.
    pub fn yards_of(&self, code: &String) -> (r: Vec<String>)
        requires
            self.wf(),
        ensures
            has_station(self@, code@) ==> r@.map_values(|y: String| y@) == station_of(
                self@,
                code@,
            ).yards.map_values(|y: YardView| y.name),
            !has_station(self@, code@) ==> r@.len() == 0,
    {
        match self.find(code) {
            Some(st) => st.yard_names(),
            None => Vec::new(),
        }
    }

    /// The tracks of the named yard of the station with the given code, in
    /// ascending order; empty where there is no such station or yard.
    pub fn tracks_of(&self, code: &String, yard: &String) -> (r: Vec<u8>)
        requires
            self.wf(),
        ensures
            has_station(self@, code@) && has_yard(station_of(self@, code@), yard@) ==> r@
                == tracks_in(station_of(self@, code@), yard@),
            !(has_station(self@, code@) && has_yard(station_of(self@, code@), yard@)) ==> r@.len()
                == 0,
    {
        match self.find(code) {
            Some(st) => {
                proof {
                    lemma_station_wf_of(self@, code@);
                }
                match st.yard(yard) {
                    Some(t) => t.clone(),
                    None => Vec::new(),
                }
            },
            None => Vec::new(),
        }
    }

    /// A catalog of the given stations, kept in the given order; fails where
    /// they do not form a well-formed catalog.
    pub fn new(stations: Vec<Station>) -> (r: Result<Catalog, CatalogError>)
        ensures
            r is Ok <==> catalog_wf(views_of(stations@)),
            r == Err::<Catalog, CatalogError>(CatalogError::NoStations) <==> stations@.len() == 0,
            r matches Ok(c) ==> c@ == views_of(stations@),
            r matches Err(e) ==> catalog_fault(views_of(stations@), e),
    {
        let ghost v = views_of(stations@);
        let n = stations.len();
        if n == 0 {
            return Err(CatalogError::NoStations);
        }
        for i in 0..n
            invariant
                n == stations@.len(),
                v == views_of(stations@),
                forall|p: int| 0 <= p < i ==> station_wf(#[trigger] v[p]),
        {
            match check_station(&stations[i]) {
                Some(e) => {
                    assert(station_fault(v[i as int], e));
                    return Err(e);
                },
                None => {},
            }
        }
        for a in 0..n
            invariant
                n == stations@.len(),
                v == views_of(stations@),
                forall|p: int, q: int|
                    0 <= p < a && 0 <= q < n && p != q ==> #[trigger] v[p].code != #[trigger] v[q].code,
        {
            for b in 0..n
                invariant
                    n == stations@.len(),
                    v == views_of(stations@),
                    0 <= a < n,
                    forall|p: int, q: int|
                        0 <= p < a && 0 <= q < n && p != q ==> #[trigger] v[p].code
                            != #[trigger] v[q].code,
                    forall|q: int| 0 <= q < b && a != q ==> v[a as int].code != #[trigger] v[q].code,
            {
                if a != b && stations[a].short == stations[b].short {
                    assert(v[a as int].code == v[b as int].code);
                    return Err(CatalogError::DuplicateStation);
                }
            }
        }
        Ok(Catalog { stations })
    }
}

} // verus!
