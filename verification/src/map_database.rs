//! The known maps with their real grid sizes, as the game's level files give
//! them. Sizes and grid steps are whole metres.
use vstd::prelude::*;

use crate::text::{chars_of, lowercase, string_from_chars, to_lowercase};
use crate::wt_telemetry::str_eq;

verus! {

/// A known map: its internal and display names, the grid step that each kind of
/// battle uses on it, its size and its game modes.
pub struct MapGridInfo {
    pub name: String,
    pub localized_name: String,
    /// Grid step of ground battles, in metres.
    pub ground_grid_step: Option<u32>,
    /// Grid step of air battles, in metres.
    pub air_grid_step: Option<u32>,
    /// Grid step of naval battles, in metres.
    pub naval_grid_step: Option<u32>,
    /// Width and height, in metres.
    pub map_size: (u32, u32),
    pub game_modes: Vec<String>,
}

/// A known map as the contracts see it.
pub struct MapGridView {
    pub name: Seq<char>,
    pub localized_name: Seq<char>,
    pub ground_grid_step: Option<u32>,
    pub air_grid_step: Option<u32>,
    pub naval_grid_step: Option<u32>,
    pub map_size: (u32, u32),
    pub game_modes: Seq<Seq<char>>,
}

impl View for MapGridInfo {
    type V = MapGridView;

    open spec fn view(&self) -> MapGridView {
        MapGridView {
            name: self.name@,
            localized_name: self.localized_name@,
            ground_grid_step: self.ground_grid_step,
            air_grid_step: self.air_grid_step,
            naval_grid_step: self.naval_grid_step,
            map_size: self.map_size,
            game_modes: self.game_modes.deep_view(),
        }
    }
}

/// One known map with a single game mode.
pub open spec fn known(
    name: Seq<char>,
    localized_name: Seq<char>,
    ground: Option<u32>,
    air: Option<u32>,
    naval: Option<u32>,
    size: u32,
    mode: Seq<char>,
) -> MapGridView {
    MapGridView {
        name,
        localized_name,
        ground_grid_step: ground,
        air_grid_step: air,
        naval_grid_step: naval,
        map_size: (size, size),
        game_modes: seq![mode],
    }
}

/// The known maps, in the order in which they are searched: ten ground maps,
/// one air map and one naval map.
pub open spec fn known_maps() -> Seq<MapGridView> {
    seq![
        known("attica"@, "Attica"@, Some(225), None, None, 4096, "ground"@),
        known("european_province"@, "European Province"@, Some(200), None, None, 4096, "ground"@),
        known("mozdok"@, "Mozdok"@, Some(200), None, None, 4096, "ground"@),
        known("fulda"@, "Fulda Gap"@, Some(200), None, None, 8192, "ground"@),
        known("abandoned_factory"@, "Abandoned Factory"@, Some(150), None, None, 2048, "ground"@),
        known("karelia"@, "Karelia"@, Some(200), None, None, 4096, "ground"@),
        known("sinai"@, "Sinai"@, Some(200), None, None, 8192, "ground"@),
        known("american_desert"@, "American Desert"@, Some(175), None, None, 4096, "ground"@),
        known("poland"@, "Fields of Poland"@, Some(200), None, None, 4096, "ground"@),
        known("maginot_line"@, "Maginot Line"@, Some(200), None, None, 4096, "ground"@),
        known("berlin_air"@, "Berlin (Air)"@, None, Some(13100), None, 131072, "air"@),
        known("bay_of_naples"@, "Bay of Naples"@, None, None, Some(800), 65536, "naval"@),
    ]
}

/// No two maps of `maps` have the same internal name.
pub open spec fn names_distinct(maps: Seq<MapGridView>) -> bool {
    forall|i: int, j: int| 0 <= i < j < maps.len() ==> maps[i].name != maps[j].name
}

/// The known maps have distinct names (each differs from the others in length
/// or in its first character).
proof fn lemma_known_names_distinct()
    ensures
        names_distinct(known_maps()),
{
    reveal_strlit("attica");
    reveal_strlit("european_province");
    reveal_strlit("mozdok");
    reveal_strlit("fulda");
    reveal_strlit("abandoned_factory");
    reveal_strlit("karelia");
    reveal_strlit("sinai");
    reveal_strlit("american_desert");
    reveal_strlit("poland");
    reveal_strlit("maginot_line");
    reveal_strlit("berlin_air");
    reveal_strlit("bay_of_naples");
    let m = known_maps();
    assert forall|i: int, j: int| 0 <= i < j < m.len() implies m[i].name != m[j].name by {
        assert(m[i].name.len() != m[j].name.len() || m[i].name[0] != m[j].name[0]);
    }
}

/// The first map of `maps` named `name`.
pub open spec fn find_named(maps: Seq<MapGridView>, name: Seq<char>) -> Option<MapGridView>
    decreases maps.len(),
{
    if maps.len() == 0 {
        None
    } else if maps[0].name == name {
        Some(maps[0])
    } else {
        find_named(maps.skip(1), name)
    }
}

/// The grid step of a map for a kind of vehicle, given in lower case: tanks and
/// ground use the ground step, aircraft, air and helicopters the air step, ships
/// and naval the naval step; any other kind uses the first step the map has, in
/// that order.
pub open spec fn grid_step_of(m: MapGridView, kind: Seq<char>) -> Option<u32> {
    if kind == "tank"@ || kind == "ground"@ {
        m.ground_grid_step
    } else if kind == "aircraft"@ || kind == "air"@ || kind == "helicopter"@ {
        m.air_grid_step
    } else if kind == "ship"@ || kind == "naval"@ {
        m.naval_grid_step
    } else if m.ground_grid_step is Some {
        m.ground_grid_step
    } else if m.air_grid_step is Some {
        m.air_grid_step
    } else {
        m.naval_grid_step
    }
}

fn entry(
    name: &str,
    localized_name: &str,
    ground: Option<u32>,
    air: Option<u32>,
    naval: Option<u32>,
    size: u32,
    mode: &str,
) -> (r: MapGridInfo)
    ensures
        r@ == known(name@, localized_name@, ground, air, naval, size, mode@),
{
    let mut modes: Vec<String> = Vec::new();
    modes.push(string_from_chars(&chars_of(mode)));
    let r = MapGridInfo {
        name: string_from_chars(&chars_of(name)),
        localized_name: string_from_chars(&chars_of(localized_name)),
        ground_grid_step: ground,
        air_grid_step: air,
        naval_grid_step: naval,
        map_size: (size, size),
        game_modes: modes,
    };
    assert(r.game_modes.deep_view() =~= seq![mode@]);
    r
}

/// The database of known maps.
pub struct MapDatabase {
    maps: Vec<MapGridInfo>,
}

impl MapDatabase {
    /// The maps, in the order in which they are searched.
    pub closed spec fn view(&self) -> Seq<MapGridView> {
        self.maps@.map_values(|m: MapGridInfo| m@)
    }

    /// The database is well formed: no two of its maps share a name.
    pub open spec fn wf(&self) -> bool {
        names_distinct(self.view())
    }

    /// The database of the known maps.
    pub fn new() -> (r: Self)
        ensures
            r.view() == known_maps(),
            r.wf(),
    {
        let mut maps: Vec<MapGridInfo> = Vec::new();
        maps.push(entry("attica", "Attica", Some(225), None, None, 4096, "ground"));
        maps.push(entry("european_province", "European Province", Some(200), None, None, 4096, "ground"));
        maps.push(entry("mozdok", "Mozdok", Some(200), None, None, 4096, "ground"));
        maps.push(entry("fulda", "Fulda Gap", Some(200), None, None, 8192, "ground"));
        maps.push(entry("abandoned_factory", "Abandoned Factory", Some(150), None, None, 2048, "ground"));
        maps.push(entry("karelia", "Karelia", Some(200), None, None, 4096, "ground"));
        maps.push(entry("sinai", "Sinai", Some(200), None, None, 8192, "ground"));
        maps.push(entry("american_desert", "American Desert", Some(175), None, None, 4096, "ground"));
        maps.push(entry("poland", "Fields of Poland", Some(200), None, None, 4096, "ground"));
        maps.push(entry("maginot_line", "Maginot Line", Some(200), None, None, 4096, "ground"));
        maps.push(entry("berlin_air", "Berlin (Air)", None, Some(13100), None, 131072, "air"));
        maps.push(entry("bay_of_naples", "Bay of Naples", None, None, Some(800), 65536, "naval"));
        let r = MapDatabase { maps };
        assert(r.view() =~= known_maps());
        proof {
            lemma_known_names_distinct();
        }
        r
    }

    /// The known maps, in the order in which they are searched.
    pub fn maps(&self) -> (r: &Vec<MapGridInfo>)
        ensures
            r@.map_values(|m: MapGridInfo| m@) == self.view(),
    {
        &self.maps
    }

    /// The map with internal name `name`, if it is known.
    pub fn get_map(&self, name: &str) -> (r: Option<&MapGridInfo>)
        ensures
            match r {
                Some(m) => find_named(self.view(), name@) == Some(m@),
                None => find_named(self.view(), name@) is None,
            },
    {
        let n = self.maps.len();
        let mut i: usize = 0;
        assert(self.view().skip(0) =~= self.view());
        while i < n
            invariant
                n == self.maps@.len() == self.view().len(),
                i <= n,
                find_named(self.view(), name@) == find_named(self.view().skip(i as int), name@),
            decreases n - i,
        {
            let m = &self.maps[i];
            let ghost rest = self.view().skip(i as int);
            assert(rest[0] == m@);
            assert(rest.skip(1) =~= self.view().skip(i + 1));
            if str_eq(m.name.as_str(), name) {
                return Some(m);
            }
            i = i + 1;
        }
        None
    }

    /// The grid step of the map named `map_name` for a kind of vehicle (the kind
    /// taken in lower case), or `None` when the map is unknown or has no step for
    /// that kind.
    pub fn get_grid_step(&self, map_name: &str, vehicle_type: &str) -> (r: Option<u32>)
        ensures
            r == match find_named(self.view(), map_name@) {
                Some(m) => grid_step_of(m, lowercase(vehicle_type@)),
                None => None,
            },
    {
        let m = match self.get_map(map_name) {
            Some(m) => m,
            None => return None,
        };
        let l = to_lowercase(vehicle_type);
        let k = l.as_str();
        if str_eq(k, "tank") || str_eq(k, "ground") {
            m.ground_grid_step
        } else if str_eq(k, "aircraft") || str_eq(k, "air") || str_eq(k, "helicopter") {
            m.air_grid_step
        } else if str_eq(k, "ship") || str_eq(k, "naval") {
            m.naval_grid_step
        } else if m.ground_grid_step.is_some() {
            m.ground_grid_step
        } else if m.air_grid_step.is_some() {
            m.air_grid_step
        } else {
            m.naval_grid_step
        }
    }
}

/// Every known map has a grid step for its own game mode, so the step of a
/// recognised map is always found.
pub proof fn law_known_maps_have_own_step()
    ensures
        forall|i: int|
            0 <= i < known_maps().len() ==> grid_step_of(
                #[trigger] known_maps()[i],
                known_maps()[i].game_modes[0],
            ) is Some,
{
    reveal_strlit("ground");
    reveal_strlit("air");
    reveal_strlit("naval");
    reveal_strlit("tank");
    reveal_strlit("aircraft");
    reveal_strlit("helicopter");
    reveal_strlit("ship");
    assert("air"@.len() != "tank"@.len() && "air"@.len() != "ground"@.len());
    assert("naval"@[0] != "tank"@[0] && "naval"@.len() != "ground"@.len() && "naval"@.len()
        != "aircraft"@.len() && "naval"@.len() != "air"@.len() && "naval"@.len() != "helicopter"@.len());
}

} // verus!
