//! The stations of the standard catalog.
use vstd::prelude::*;
use crate::catalog::Station;

verus! {

fn y(name: &str) -> (r: String)
    ensures
        r@ == name@,
{
    name.to_owned()
}

/// The stations of the standard catalog, in its canonical order.
pub fn standard_stations() -> (r: Vec<Station>)
    ensures
        r@.map_values(|s: Station| s.short@) == seq![
            "CME"@,
            "CMS"@,
            "CP"@,
            "CS"@,
            "CW"@,
            "FF"@,
            "FM"@,
            "FRC"@,
            "FRS"@,
            "GF"@,
            "HB"@,
            "IME"@,
            "IMW"@,
            "MB"@,
            "MF"@,
            "OR"@,
            "OWC"@,
            "OWN"@,
            "SM"@,
            "SW"@,
        ],
        r@.map_values(|s: Station| s.long@) == seq![
            "Coal Mine East"@,
            "Coal Mine South"@,
            "Coal Power Plant"@,
            "City South"@,
            "City West"@,
            "Food Factory and Town"@,
            "Farm"@,
            "Forest Central"@,
            "Forest South"@,
            "Goods Factory and Town"@,
            "Harbor and Town"@,
            "Iron Ore Mine East"@,
            "Iron Ore Mine West"@,
            "Military Base"@,
            "Machine Factory and Town"@,
            "Oil Refinery"@,
            "Oil Well Central"@,
            "Oil Well North"@,
            "Steel Mill"@,
            "Saw Mill"@,
        ],
{
    let r = vec![
        Station::new(
            "CME",
            "Coal Mine East",
            vec![
                (y("A"), vec![3u8]),
                (y("B"), vec![1u8, 2, 3, 5]),
                (y("C"), vec![1u8, 3]),
            ],
        ),
        Station::new(
            "CMS",
            "Coal Mine South",
            vec![
                (y("A"), vec![1u8, 2]),
                (y("B"), vec![2u8, 3, 4, 5, 6, 7, 8]),
            ],
        ),
        Station::new(
            "CP",
            "Coal Power Plant",
            vec![
                (y("A"), vec![1u8, 2, 3, 4, 5, 6]),
                (y("B"), vec![1u8, 2, 3, 5]),
            ],
        ),
        Station::new(
            "CS",
            "City South",
            vec![
                (y("A"), vec![3u8]),
                (y("B"), vec![1u8, 3, 4]),
                (y("C"), vec![1u8, 3, 4]),
            ],
        ),
        Station::new(
            "CW",
            "City West",
            vec![
                (y("A"), vec![1u8, 3]),
                (y("C"), vec![2u8, 3, 4, 5, 6]),
            ],
        ),
        Station::new(
            "FF",
            "Food Factory and Town",
            vec![
                (y("A"), vec![1u8]),
                (y("C"), vec![1u8, 2, 3, 4, 5, 6, 7, 8, 9]),
                (y("D"), vec![1u8, 2, 3, 4]),
            ],
        ),
        Station::new(
            "FM",
            "Farm",
            vec![
                (y("A"), vec![1u8, 2, 3]),
                (y("B"), vec![1u8, 2, 3, 5, 6]),
            ],
        ),
        Station::new(
            "FRC",
            "Forest Central",
            vec![
                (y("B"), vec![1u8, 2, 4]),
                (y("C"), vec![1u8, 2, 4]),
            ],
        ),
        Station::new(
            "FRS",
            "Forest South",
            vec![
                (y("A"), vec![1u8, 2, 3, 5, 6, 7]),
            ],
        ),
        Station::new(
            "GF",
            "Goods Factory and Town",
            vec![
                (y("A"), vec![2u8, 3]),
                (y("B"), vec![1u8, 2, 3]),
                (y("D"), vec![1u8, 2, 3, 5, 6, 7]),
            ],
        ),
        Station::new(
            "HB",
            "Harbor and Town",
            vec![
                (y("B"), vec![1u8, 3, 4, 5, 6, 7, 8]),
                (y("C"), vec![1u8, 2, 3]),
                (y("D"), vec![1u8, 2, 3, 4, 5, 6, 7]),
                (y("E"), vec![1u8, 2, 3, 4, 5, 7, 8, 9, 10, 11]),
                (y("G"), vec![1u8, 2, 3, 5, 6, 7]),
            ],
        ),
        Station::new(
            "IME",
            "Iron Ore Mine East",
            vec![
                (y("A"), vec![1u8]),
                (y("B"), vec![1u8, 2, 4]),
                (y("C"), vec![1u8, 3, 4]),
            ],
        ),
        Station::new(
            "IMW",
            "Iron Ore Mine West",
            vec![
                (y("A"), vec![1u8, 2, 3, 4, 6, 7, 8]),
            ],
        ),
        Station::new(
            "MB",
            "Military Base",
            vec![
                (y("A"), vec![1u8, 2]),
                (y("B"), vec![2u8, 3, 4, 5, 6]),
            ],
        ),
        Station::new(
            "MF",
            "Machine Factory and Town",
            vec![
                (y("B"), vec![1u8, 2, 4, 5, 6]),
                (y("C"), vec![1u8, 2, 3, 4]),
                (y("E"), vec![1u8, 2, 3, 4]),
            ],
        ),
        Station::new(
            "OR",
            "Oil Refinery",
            vec![
                (y("A"), vec![1u8, 2, 3, 4, 5, 6]),
                (y("B"), vec![3u8, 4, 5, 6, 7]),
            ],
        ),
        Station::new(
            "OWC",
            "Oil Well Central",
            vec![
                (y("A"), vec![1u8, 2, 3]),
                (y("B"), vec![1u8, 3, 4, 5, 6]),
            ],
        ),
        Station::new(
            "OWN",
            "Oil Well North",
            vec![
                (y("B"), vec![2u8, 3, 4, 5, 6]),
                (y("C"), vec![1u8, 3]),
            ],
        ),
        Station::new(
            "SM",
            "Steel Mill",
            vec![
                (y("A"), vec![3u8, 4, 5, 6, 7]),
                (y("B"), vec![1u8, 2, 3, 4, 6, 7, 8]),
            ],
        ),
        Station::new(
            "SW",
            "Saw Mill",
            vec![
                (y("B"), vec![1u8, 3, 4]),
                (y("C"), vec![1u8, 3, 4]),
            ],
        ),
    ];
    assert(r@.map_values(|s: Station| s.short@) =~= seq![
        "CME"@,
        "CMS"@,
        "CP"@,
        "CS"@,
        "CW"@,
        "FF"@,
        "FM"@,
        "FRC"@,
        "FRS"@,
        "GF"@,
        "HB"@,
        "IME"@,
        "IMW"@,
        "MB"@,
        "MF"@,
        "OR"@,
        "OWC"@,
        "OWN"@,
        "SM"@,
        "SW"@,
    ]);
    assert(r@.map_values(|s: Station| s.long@) =~= seq![
        "Coal Mine East"@,
        "Coal Mine South"@,
        "Coal Power Plant"@,
        "City South"@,
        "City West"@,
        "Food Factory and Town"@,
        "Farm"@,
        "Forest Central"@,
        "Forest South"@,
        "Goods Factory and Town"@,
        "Harbor and Town"@,
        "Iron Ore Mine East"@,
        "Iron Ore Mine West"@,
        "Military Base"@,
        "Machine Factory and Town"@,
        "Oil Refinery"@,
        "Oil Well Central"@,
        "Oil Well North"@,
        "Steel Mill"@,
        "Saw Mill"@,
    ]);
    r
}

} // verus!
