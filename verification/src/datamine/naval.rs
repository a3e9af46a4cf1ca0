//! What the ship model files tell of a ship besides its numbers: which files are
//! ships at all, which damage parts are tracked compartments, and its class.
use vstd::prelude::*;

use crate::text::{chars_of, has_part, matches_at, str_contains, string_from_chars};

verus! {

/// `p` begins `s`.
pub open spec fn starts_with(s: Seq<char>, p: Seq<char>) -> bool {
    p.len() <= s.len() && s.take(p.len() as int) == p
}

/// `p` ends `s`.
pub open spec fn ends_with(s: Seq<char>, p: Seq<char>) -> bool {
    p.len() <= s.len() && s.skip(s.len() - p.len()) == p
}

/// The beginnings of the names of model files in the ships folder that are not
/// ships: fishing boats, cargo, debris, floats and buoys.
pub open spec fn non_ship_prefixes() -> Seq<Seq<char>> {
    seq!["fishboat"@, "cargo"@, "debris"@, "float_"@, "buoy_"@]
}

/// A model file in the ships folder is a ship unless its name begins with one
/// of the non-ship prefixes.
pub open spec fn is_ship_name(name: Seq<char>) -> bool {
    forall|i: int| 0 <= i < non_ship_prefixes().len() ==> !starts_with(name, #[trigger] non_ship_prefixes()[i])
}

fn begins_with(s: &Vec<char>, p: &str) -> (r: bool)
    ensures
        r == starts_with(s@, p@),
{
    let pv = chars_of(p);
    if pv.len() > s.len() {
        return false;
    }
    let r = matches_at(s, &pv, 0);
    assert(s@.subrange(0, pv@.len() as int) =~= s@.take(pv@.len() as int));
    r
}

fn finishes_with(s: &Vec<char>, p: &str) -> (r: bool)
    ensures
        r == ends_with(s@, p@),
{
    let pv = chars_of(p);
    if pv.len() > s.len() {
        return false;
    }
    let start = s.len() - pv.len();
    let r = matches_at(s, &pv, start);
    assert(s@.subrange(start as int, start + pv@.len()) =~= s@.skip(start as int));
    r
}

/// Whether a model file in the ships folder, by its file name, is a ship.
pub fn is_ship_file(name: &str) -> (r: bool)
    ensures
        r == is_ship_name(name@),
{
    let v = chars_of(name);
    let a = begins_with(&v, "fishboat");
    let b = begins_with(&v, "cargo");
    let c = begins_with(&v, "debris");
    let d = begins_with(&v, "float_");
    let e = begins_with(&v, "buoy_");
    let ghost ps = non_ship_prefixes();
    assert(ps[0] == "fishboat"@ && ps[1] == "cargo"@ && ps[2] == "debris"@ && ps[3] == "float_"@
        && ps[4] == "buoy_"@);
    if a || b || c || d || e {
        assert(!is_ship_name(name@)) by {
            if a {
                assert(starts_with(name@, ps[0]));
            } else if b {
                assert(starts_with(name@, ps[1]));
            } else if c {
                assert(starts_with(name@, ps[2]));
            } else if d {
                assert(starts_with(name@, ps[3]));
            } else {
                assert(starts_with(name@, ps[4]));
            }
        }
        false
    } else {
        true
    }
}

/// The blocks of a ship's `DamageParts` whose parts are tracked.
#[derive(Debug, Clone, Copy, PartialEq, Eq, Structural)]
pub enum DamageSection {
    /// `crew_compartments`
    CrewCompartments,
    /// `engines`
    Engines,
    /// `ammo_storages_shells`
    AmmoStorages,
}

/// Whether a damage part of a section is tracked as a compartment, and if so
/// whether it is critical: crew compartments and engine rooms are the parts
/// named `..._dm`, ammunition stores those whose name holds `ammunition`; engine
/// rooms and ammunition stores are critical.
pub open spec fn compartment_kind(section: DamageSection, key: Seq<char>) -> Option<bool> {
    match section {
        DamageSection::CrewCompartments => if ends_with(key, "_dm"@) {
            Some(false)
        } else {
            None
        },
        DamageSection::Engines => if ends_with(key, "_dm"@) {
            Some(true)
        } else {
            None
        },
        DamageSection::AmmoStorages => if has_part(key, "ammunition"@) {
            Some(true)
        } else {
            None
        },
    }
}

/// Whether the damage part `key` of `section` is tracked, and whether it is
/// critical (`Some(critical)`), or `None` when it is not tracked.
pub fn compartment_rule(section: DamageSection, key: &str) -> (r: Option<bool>)
    ensures
        r == compartment_kind(section, key@),
{
    match section {
        DamageSection::CrewCompartments => if finishes_with(&chars_of(key), "_dm") {
            Some(false)
        } else {
            None
        },
        DamageSection::Engines => if finishes_with(&chars_of(key), "_dm") {
            Some(true)
        } else {
            None
        },
        DamageSection::AmmoStorages => if str_contains(key, "ammunition") {
            Some(true)
        } else {
            None
        },
    }
}

/// The class of a ship: its `type`, else its `subclass`, else `unknown`.
pub open spec fn ship_class_of(type_: Option<Seq<char>>, subclass: Option<Seq<char>>) -> Seq<char> {
    match type_ {
        Some(t) => t,
        None => match subclass {
            Some(s) => s,
            None => "unknown"@,
        },
    }
}

/// The class of a ship, from the `type` and `subclass` of its file.
pub fn ship_class(type_: Option<&str>, subclass: Option<&str>) -> (r: String)
    ensures
        r@ == ship_class_of(
            match type_ {
                Some(t) => Some(t@),
                None => None,
            },
            match subclass {
                Some(s) => Some(s@),
                None => None,
            },
        ),
{
    match type_ {
        Some(t) => string_from_chars(&chars_of(t)),
        None => match subclass {
            Some(s) => string_from_chars(&chars_of(s)),
            None => string_from_chars(&chars_of("unknown")),
        },
    }
}

} // verus!
