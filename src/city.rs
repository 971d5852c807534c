//! The cities of the board, each with a fixed position in a total order.

use vstd::prelude::*;

verus! {

/// All the different cities on the map, in their fixed order.
#[derive(Clone, Copy, Debug, PartialEq, Eq, Structural, Hash, PartialOrd, Ord)]
pub enum City {
    Atlanta,
    Boston,
    Calgary,
    Charleston,
    Chicago,
    Dallas,
    Denver,
    Duluth,
    ElPaso,
    Helena,
    Houston,
    KansasCity,
    LasVegas,
    LittleRock,
    LosAngeles,
    Miami,
    Montreal,
    Nashville,
    NewOrleans,
    NewYork,
    OklahomaCity,
    Omaha,
    Phoenix,
    Pittsburgh,
    Portland,
    Raleigh,
    SaintLouis,
    SaltLakeCity,
    SanFrancisco,
    SantaFe,
    SaultStMarie,
    Seattle,
    Toronto,
    Vancouver,
    Washington,
    Winnipeg,
}

/// A connection between two cities, as an ordered pair.
pub type CityToCity = (City, City);

/// The position of a city in the fixed order of cities.
pub open spec fn city_index(c: City) -> nat {
    match c {
        City::Atlanta => 0,
        City::Boston => 1,
        City::Calgary => 2,
        City::Charleston => 3,
        City::Chicago => 4,
        City::Dallas => 5,
        City::Denver => 6,
        City::Duluth => 7,
        City::ElPaso => 8,
        City::Helena => 9,
        City::Houston => 10,
        City::KansasCity => 11,
        City::LasVegas => 12,
        City::LittleRock => 13,
        City::LosAngeles => 14,
        City::Miami => 15,
        City::Montreal => 16,
        City::Nashville => 17,
        City::NewOrleans => 18,
        City::NewYork => 19,
        City::OklahomaCity => 20,
        City::Omaha => 21,
        City::Phoenix => 22,
        City::Pittsburgh => 23,
        City::Portland => 24,
        City::Raleigh => 25,
        City::SaintLouis => 26,
        City::SaltLakeCity => 27,
        City::SanFrancisco => 28,
        City::SantaFe => 29,
        City::SaultStMarie => 30,
        City::Seattle => 31,
        City::Toronto => 32,
        City::Vancouver => 33,
        City::Washington => 34,
        City::Winnipeg => 35,
    }
}

/// The name under which a city is shown to players.
pub open spec fn city_name(c: City) -> Seq<char> {
    match c {
        City::Atlanta => "Atlanta"@,
        City::Boston => "Boston"@,
        City::Calgary => "Calgary"@,
        City::Charleston => "Charleston"@,
        City::Chicago => "Chicago"@,
        City::Dallas => "Dallas"@,
        City::Denver => "Denver"@,
        City::Duluth => "Duluth"@,
        City::ElPaso => "El Paso"@,
        City::Helena => "Helena"@,
        City::Houston => "Houston"@,
        City::KansasCity => "Kansas City"@,
        City::LasVegas => "Las Vegas"@,
        City::LittleRock => "Little Rock"@,
        City::LosAngeles => "Los Angeles"@,
        City::Miami => "Miami"@,
        City::Montreal => "Montréal"@,
        City::Nashville => "Nashville"@,
        City::NewOrleans => "New Orleans"@,
        City::NewYork => "New York"@,
        City::OklahomaCity => "Oklahoma City"@,
        City::Omaha => "Omaha"@,
        City::Phoenix => "Phoenix"@,
        City::Pittsburgh => "Pittsburgh"@,
        City::Portland => "Portland"@,
        City::Raleigh => "Raleigh"@,
        City::SaintLouis => "Saint Louis"@,
        City::SaltLakeCity => "Salt Lake City"@,
        City::SanFrancisco => "San Francisco"@,
        City::SantaFe => "Santa Fe"@,
        City::SaultStMarie => "Sault St. Marie"@,
        City::Seattle => "Seattle"@,
        City::Toronto => "Toronto"@,
        City::Vancouver => "Vancouver"@,
        City::Washington => "Washington"@,
        City::Winnipeg => "Winnipeg"@,
    }
}

/// Every city is at a distinct position below the number of cities.
pub proof fn lemma_city_index_injective(a: City, b: City)
    ensures
        city_index(a) < 36,
        city_index(a) == city_index(b) <==> a == b,
{
}

impl City {
    /// The number of cities on the map.
    pub const COUNT: usize = 36;

    /// The position of this city in the fixed order of cities.
    pub fn index(&self) -> (r: usize)
        ensures
            r == city_index(*self),
            r < City::COUNT,
    {
        match self {
            City::Atlanta => 0,
            City::Boston => 1,
            City::Calgary => 2,
            City::Charleston => 3,
            City::Chicago => 4,
            City::Dallas => 5,
            City::Denver => 6,
            City::Duluth => 7,
            City::ElPaso => 8,
            City::Helena => 9,
            City::Houston => 10,
            City::KansasCity => 11,
            City::LasVegas => 12,
            City::LittleRock => 13,
            City::LosAngeles => 14,
            City::Miami => 15,
            City::Montreal => 16,
            City::Nashville => 17,
            City::NewOrleans => 18,
            City::NewYork => 19,
            City::OklahomaCity => 20,
            City::Omaha => 21,
            City::Phoenix => 22,
            City::Pittsburgh => 23,
            City::Portland => 24,
            City::Raleigh => 25,
            City::SaintLouis => 26,
            City::SaltLakeCity => 27,
            City::SanFrancisco => 28,
            City::SantaFe => 29,
            City::SaultStMarie => 30,
            City::Seattle => 31,
            City::Toronto => 32,
            City::Vancouver => 33,
            City::Washington => 34,
            City::Winnipeg => 35,
        }
    }

    /// The city at a given position in the fixed order of cities.
    pub fn from_index(i: usize) -> (r: City)
        requires
            i < City::COUNT,
        ensures
            city_index(r) == i,
    {
        match i {
            0 => City::Atlanta,
            1 => City::Boston,
            2 => City::Calgary,
            3 => City::Charleston,
            4 => City::Chicago,
            5 => City::Dallas,
            6 => City::Denver,
            7 => City::Duluth,
            8 => City::ElPaso,
            9 => City::Helena,
            10 => City::Houston,
            11 => City::KansasCity,
            12 => City::LasVegas,
            13 => City::LittleRock,
            14 => City::LosAngeles,
            15 => City::Miami,
            16 => City::Montreal,
            17 => City::Nashville,
            18 => City::NewOrleans,
            19 => City::NewYork,
            20 => City::OklahomaCity,
            21 => City::Omaha,
            22 => City::Phoenix,
            23 => City::Pittsburgh,
            24 => City::Portland,
            25 => City::Raleigh,
            26 => City::SaintLouis,
            27 => City::SaltLakeCity,
            28 => City::SanFrancisco,
            29 => City::SantaFe,
            30 => City::SaultStMarie,
            31 => City::Seattle,
            32 => City::Toronto,
            33 => City::Vancouver,
            34 => City::Washington,
            _ => City::Winnipeg,
        }
    }

    /// The name under which this city is shown to players.
    pub fn to_string(&self) -> (r: String)
        ensures
            r@ == city_name(*self),
    {
        match self {
            City::Atlanta => String::from_str("Atlanta"),
            City::Boston => String::from_str("Boston"),
            City::Calgary => String::from_str("Calgary"),
            City::Charleston => String::from_str("Charleston"),
            City::Chicago => String::from_str("Chicago"),
            City::Dallas => String::from_str("Dallas"),
            City::Denver => String::from_str("Denver"),
            City::Duluth => String::from_str("Duluth"),
            City::ElPaso => String::from_str("El Paso"),
            City::Helena => String::from_str("Helena"),
            City::Houston => String::from_str("Houston"),
            City::KansasCity => String::from_str("Kansas City"),
            City::LasVegas => String::from_str("Las Vegas"),
            City::LittleRock => String::from_str("Little Rock"),
            City::LosAngeles => String::from_str("Los Angeles"),
            City::Miami => String::from_str("Miami"),
            City::Montreal => String::from_str("Montréal"),
            City::Nashville => String::from_str("Nashville"),
            City::NewOrleans => String::from_str("New Orleans"),
            City::NewYork => String::from_str("New York"),
            City::OklahomaCity => String::from_str("Oklahoma City"),
            City::Omaha => String::from_str("Omaha"),
            City::Phoenix => String::from_str("Phoenix"),
            City::Pittsburgh => String::from_str("Pittsburgh"),
            City::Portland => String::from_str("Portland"),
            City::Raleigh => String::from_str("Raleigh"),
            City::SaintLouis => String::from_str("Saint Louis"),
            City::SaltLakeCity => String::from_str("Salt Lake City"),
            City::SanFrancisco => String::from_str("San Francisco"),
            City::SantaFe => String::from_str("Santa Fe"),
            City::SaultStMarie => String::from_str("Sault St. Marie"),
            City::Seattle => String::from_str("Seattle"),
            City::Toronto => String::from_str("Toronto"),
            City::Vancouver => String::from_str("Vancouver"),
            City::Washington => String::from_str("Washington"),
            City::Winnipeg => String::from_str("Winnipeg"),
        }
    }
}

} // verus!
