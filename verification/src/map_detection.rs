//! What a map is called, once it has been recognised by its coordinates.
use vstd::prelude::*;

verus! {

/// A recognised map: its internal name, its display name and its game mode
/// ("air", "ground" or "naval").
pub struct MapIdentity {
    pub name: String,
    pub localized_name: String,
    pub game_mode: String,
}

} // verus!
