//! Map objects as the game's map API lists them: what kind of object each is
//! and whose side it is on, and how a grid square is written.
//!
//! Positions are left to the caller; an object is held here by the texts that
//! tell what it is.
use vstd::prelude::*;

use crate::text::{has_part, int_chars, int_text, str_contains, string_from_chars};
use crate::wt_telemetry::str_eq;

verus! {

/// A map object's type, colour and icon.
pub struct MapObjectInfo {
    pub obj_type: String,
    pub color: String,
    pub icon: String,
}

impl MapObjectInfo {
    /// The player's own marker.
    pub open spec fn player_spec(&self) -> bool {
        self.icon@ == "Player"@
    }

    /// Drawn in the friendly blue.
    pub open spec fn friendly_spec(&self) -> bool {
        has_part(self.color@, "#174DFF"@) || has_part(self.color@, "#174dff"@)
    }

    /// Drawn in the enemy red.
    pub open spec fn enemy_spec(&self) -> bool {
        has_part(self.color@, "#fa0C00"@) || has_part(self.color@, "#fa0c00"@)
    }

    /// A ship, by icon or type.
    pub open spec fn ship_spec(&self) -> bool {
        self.icon@ == "Ship"@ || has_part(self.obj_type@, "ship"@)
    }

    /// An aircraft, by icon or type.
    pub open spec fn aircraft_spec(&self) -> bool {
        self.icon@ == "Aircraft"@ || has_part(self.obj_type@, "aircraft"@)
    }

    /// A tank, by icon or type.
    pub open spec fn tank_spec(&self) -> bool {
        self.icon@ == "Tank"@ || has_part(self.obj_type@, "tank"@)
    }

    /// Whether this is the player.
    pub fn is_player(&self) -> (r: bool)
        ensures
            r == self.player_spec(),
    {
        str_eq(self.icon.as_str(), "Player")
    }

    /// Whether this is a friendly unit.
    pub fn is_friendly(&self) -> (r: bool)
        ensures
            r == self.friendly_spec(),
    {
        str_contains(self.color.as_str(), "#174DFF") || str_contains(self.color.as_str(), "#174dff")
    }

    /// Whether this is an enemy unit.
    pub fn is_enemy(&self) -> (r: bool)
        ensures
            r == self.enemy_spec(),
    {
        str_contains(self.color.as_str(), "#fa0C00") || str_contains(self.color.as_str(), "#fa0c00")
    }

    /// Whether this is a ship.
    pub fn is_ship(&self) -> (r: bool)
        ensures
            r == self.ship_spec(),
    {
        str_eq(self.icon.as_str(), "Ship") || str_contains(self.obj_type.as_str(), "ship")
    }

    /// Whether this is an aircraft.
    pub fn is_aircraft(&self) -> (r: bool)
        ensures
            r == self.aircraft_spec(),
    {
        str_eq(self.icon.as_str(), "Aircraft") || str_contains(self.obj_type.as_str(), "aircraft")
    }

    /// Whether this is a tank.
    pub fn is_tank(&self) -> (r: bool)
        ensures
            r == self.tank_spec(),
    {
        str_eq(self.icon.as_str(), "Tank") || str_contains(self.obj_type.as_str(), "tank")
    }
}

/// The player's marker: the first object that is the player.
pub fn find_player(objects: &Vec<MapObjectInfo>) -> (r: Option<usize>)
    ensures
        match r {
            Some(i) => i < objects.len() && objects@[i as int].player_spec() && forall|j: int|
                0 <= j < i ==> !(#[trigger] objects@[j]).player_spec(),
            None => forall|j: int| 0 <= j < objects.len() ==> !(#[trigger] objects@[j]).player_spec(),
        },
{
    let n = objects.len();
    for i in 0..n
        invariant
            n == objects.len(),
            forall|j: int| 0 <= j < i ==> !(#[trigger] objects@[j]).player_spec(),
    {
        if objects[i].is_player() {
            return Some(i);
        }
    }
    None
}

/// Which objects a selection of the map takes.
#[derive(Debug, Clone, Copy, PartialEq, Eq, Structural)]
pub enum MapSelection {
    FriendlyShips,
    EnemyShips,
    CaptureZones,
}

/// Whether a selection takes `o`.
pub open spec fn selects(sel: MapSelection, o: MapObjectInfo) -> bool {
    match sel {
        MapSelection::FriendlyShips => o.friendly_spec() && o.ship_spec(),
        MapSelection::EnemyShips => o.enemy_spec() && o.ship_spec(),
        MapSelection::CaptureZones => o.obj_type@ == "capture_zone"@,
    }
}

/// The positions, among the first `n` objects, of those a selection takes.
pub open spec fn selected_upto(objects: Seq<MapObjectInfo>, sel: MapSelection, n: int) -> Seq<int>
    decreases n,
{
    if n <= 0 {
        Seq::empty()
    } else if selects(sel, objects[n - 1]) {
        selected_upto(objects, sel, n - 1).push(n - 1)
    } else {
        selected_upto(objects, sel, n - 1)
    }
}

/// The positions of the friendly ships, the enemy ships or the capture zones,
/// in order.
pub fn select_objects(objects: &Vec<MapObjectInfo>, sel: MapSelection) -> (r: Vec<usize>)
    ensures
        r@.map_values(|i: usize| i as int) == selected_upto(objects@, sel, objects.len() as int),
{
    let mut r: Vec<usize> = Vec::new();
    let n = objects.len();
    for i in 0..n
        invariant
            n == objects.len(),
            r@.map_values(|i: usize| i as int) == selected_upto(objects@, sel, i as int),
    {
        let o = &objects[i];
        let take = match sel {
            MapSelection::FriendlyShips => o.is_friendly() && o.is_ship(),
            MapSelection::EnemyShips => o.is_enemy() && o.is_ship(),
            MapSelection::CaptureZones => str_eq(o.obj_type.as_str(), "capture_zone"),
        };
        if take {
            let ghost before = r@;
            r.push(i);
            assert(r@.map_values(|i: usize| i as int) =~= before.map_values(|i: usize| i as int).push(
                i as int,
            ));
        }
    }
    r
}

/// The letter of grid row `y` (from 0 to 25): `A` to `Z`.
pub open spec fn row_letter(y: int) -> char {
    (('A' as int) + y) as char
}

/// A grid cell written as its row letter and its column counted from 1 (a
/// `?` in place of the letter for a row off the grid).
pub open spec fn cell_text(cell_x: int, cell_y: int) -> Seq<char> {
    if 0 <= cell_y < 26 {
        seq![row_letter(cell_y)] + int_text(cell_x + 1)
    } else {
        seq!['?'] + int_text(cell_x + 1)
    }
}

/// A grid reference written as the row letter, a dash and the column counted
/// from 1 (a `?` and the row number in place of the letter for a row off the
/// grid).
pub open spec fn reference_text(grid_x: int, grid_y: int) -> Seq<char> {
    (if 0 <= grid_y < 26 {
        seq![row_letter(grid_y)]
    } else {
        seq!['?'] + int_text(grid_y)
    }) + seq!['-'] + int_text(grid_x + 1)
}

fn letter(y: i32) -> (r: char)
    requires
        0 <= y < 26,
    ensures
        r == row_letter(y as int),
{
    let b: u8 = 65u8 + (y as u8);
    b as char
}

/// A grid cell as text, such as "A5".
pub fn grid_cell_to_string(cell_x: i32, cell_y: i32) -> (r: String)
    requires
        cell_x < i32::MAX,
    ensures
        r@ == cell_text(cell_x as int, cell_y as int),
{
    let mut v: Vec<char> = Vec::new();
    if 0 <= cell_y && cell_y < 26 {
        v.push(letter(cell_y));
    } else {
        v.push('?');
    }
    let num = int_chars((cell_x + 1) as i64);
    let ghost v0 = v@;
    let mut k: usize = 0;
    while k < num.len()
        invariant
            k <= num@.len(),
            v@ == v0 + num@.take(k as int),
        decreases num@.len() - k,
    {
        v.push(num[k]);
        assert(num@.take(k + 1) =~= num@.take(k as int).push(num@[k as int]));
        k = k + 1;
    }
    assert(num@.take(num@.len() as int) =~= num@);
    string_from_chars(&v)
}

fn append_chars(v: &mut Vec<char>, w: &Vec<char>)
    ensures
        final(v)@ == old(v)@ + w@,
{
    let ghost v0 = v@;
    let mut k: usize = 0;
    while k < w.len()
        invariant
            k <= w@.len(),
            v@ == v0 + w@.take(k as int),
        decreases w@.len() - k,
    {
        v.push(w[k]);
        assert(w@.take(k + 1) =~= w@.take(k as int).push(w@[k as int]));
        k = k + 1;
    }
    assert(w@.take(w@.len() as int) =~= w@);
}

/// The player's grid reference as text, such as "P-10".
pub fn grid_reference(grid_x: i32, grid_y: i32) -> (r: String)
    requires
        grid_x < i32::MAX,
    ensures
        r@ == reference_text(grid_x as int, grid_y as int),
{
    let mut v: Vec<char> = Vec::new();
    if 0 <= grid_y && grid_y < 26 {
        v.push(letter(grid_y));
    } else {
        v.push('?');
        let row = int_chars(grid_y as i64);
        append_chars(&mut v, &row);
    }
    v.push('-');
    let num = int_chars((grid_x + 1) as i64);
    append_chars(&mut v, &num);
    string_from_chars(&v)
}

} // verus!
