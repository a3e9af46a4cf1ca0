//! The endpoints of the game's local API that a diagnostic dump reads.
use vstd::prelude::*;

verus! {

/// The known endpoints of the game's local API, in the order they are read:
/// the main page, the map, the telemetry, the HUD and chat (with and without
/// their query parameters), the mission and the remaining status pages.
pub open spec fn known_endpoints_spec() -> Seq<Seq<char>> {
    seq![
        "/"@,
        "/map_info.json"@,
        "/map_obj.json"@,
        "/indicators"@,
        "/state"@,
        "/hudmsg?lastEvt=0&lastDmg=0"@,
        "/gamechat?lastId=0"@,
        "/mission.json"@,
        "/status"@,
        "/info"@,
        "/gunner_view"@,
        "/damage"@,
        "/hudmsg"@,
        "/gamechat"@,
    ]
}

/// The known endpoints of the game's local API, in the order they are read.
pub fn get_known_endpoints() -> (r: Vec<String>)
    ensures
        r.deep_view() == known_endpoints_spec(),
{
    let mut r: Vec<String> = Vec::new();
    r.push(String::from_str("/"));
    r.push(String::from_str("/map_info.json"));
    r.push(String::from_str("/map_obj.json"));
    r.push(String::from_str("/indicators"));
    r.push(String::from_str("/state"));
    r.push(String::from_str("/hudmsg?lastEvt=0&lastDmg=0"));
    r.push(String::from_str("/gamechat?lastId=0"));
    r.push(String::from_str("/mission.json"));
    r.push(String::from_str("/status"));
    r.push(String::from_str("/info"));
    r.push(String::from_str("/gunner_view"));
    r.push(String::from_str("/damage"));
    r.push(String::from_str("/hudmsg"));
    r.push(String::from_str("/gamechat"));
    assert(r.deep_view() =~= known_endpoints_spec());
    r
}

} // verus!
