//! The emulated game API used for testing without the game: the kind of
//! vehicle emulated, how it is named in the API, and the log of emulated events.
use vstd::prelude::*;

use std::collections::HashMap;

use crate::map_module::MapObjectInfo;
use crate::text::{chars_of, string_from_chars};

verus! {

/// The kind of vehicle the emulator pretends to be.
#[derive(Debug, Clone, Copy, PartialEq, Eq, Structural)]
pub enum VehicleType {
    Tank,
    Aircraft,
    Ship,
}

/// The `army` field of the emulated indicators.
pub open spec fn army_spec(vt: VehicleType) -> Seq<char> {
    match vt {
        VehicleType::Tank => "ground"@,
        VehicleType::Aircraft => "air"@,
        VehicleType::Ship => "sea"@,
    }
}

/// The `army` field of the emulated indicators.
pub fn army_name(vt: VehicleType) -> (r: String)
    ensures
        r@ == army_spec(vt),
{
    match vt {
        VehicleType::Tank => String::from_str("ground"),
        VehicleType::Aircraft => String::from_str("air"),
        VehicleType::Ship => String::from_str("sea"),
    }
}

/// The map icon of the emulated vehicles.
pub open spec fn icon_spec(vt: VehicleType) -> Seq<char> {
    match vt {
        VehicleType::Tank => "Tank"@,
        VehicleType::Aircraft => "Aircraft"@,
        VehicleType::Ship => "Ship"@,
    }
}

/// The map icon of the emulated vehicles.
pub fn map_icon(vt: VehicleType) -> (r: String)
    ensures
        r@ == icon_spec(vt),
{
    match vt {
        VehicleType::Tank => String::from_str("Tank"),
        VehicleType::Aircraft => String::from_str("Aircraft"),
        VehicleType::Ship => String::from_str("Ship"),
    }
}

/// A vehicle name as the API writes it: spaces become underscores.
pub open spec fn api_name_spec(name: Seq<char>) -> Seq<char> {
    name.map_values(|c: char| if c == ' ' { '_' } else { c })
}

/// The `type` field of the emulated indicators: tanks under "tankModels/",
/// other vehicles by name alone.
pub open spec fn type_field_spec(vt: VehicleType, name: Seq<char>) -> Seq<char> {
    match vt {
        VehicleType::Tank => "tankModels/"@ + api_name_spec(name),
        _ => api_name_spec(name),
    }
}

/// The `type` field of the emulated indicators for a vehicle of kind `vt`
/// named `name`.
pub fn type_field(vt: VehicleType, name: &str) -> (r: String)
    ensures
        r@ == type_field_spec(vt, name@),
{
    let mut v: Vec<char> = match vt {
        VehicleType::Tank => {
            proof {
                reveal_strlit("tankModels/");
            }
            chars_of("tankModels/")
        },
        _ => Vec::new(),
    };
    let ghost prefix = v@;
    let cs = chars_of(name);
    let n = cs.len();
    for i in 0..n
        invariant
            n == cs.len(),
            cs@ == name@,
            v@ == prefix + name@.take(i as int).map_values(|c: char| if c == ' ' { '_' } else { c }),
    {
        let c = cs[i];
        let d = if c == ' ' { '_' } else { c };
        v.push(d);
        assert(name@.take(i + 1).map_values(|c: char| if c == ' ' { '_' } else { c }) =~= name@.take(
            i as int,
        ).map_values(|c: char| if c == ' ' { '_' } else { c }).push(d));
    }
    assert(name@.take(n as int) =~= name@);
    assert(prefix + api_name_spec(name@) == type_field_spec(vt, name@));
    string_from_chars(&v)
}

/// An event raised on the emulator.
pub struct EmulatedEvent {
    pub event_type: String,
    /// Milliseconds since the Unix epoch.
    pub timestamp: u64,
    pub data: HashMap<String, String>,
}

impl EmulatedEvent {
    /// A copy with the same type, time and data.
    pub fn copy(&self) -> (r: EmulatedEvent)
        ensures
            r.event_type@ == self.event_type@,
            r.timestamp == self.timestamp,
            r.data@ == self.data@,
    {
        EmulatedEvent {
            event_type: self.event_type.clone(),
            timestamp: self.timestamp,
            data: self.data.clone(),
        }
    }
}

/// The positions of the events later than `since`, in order, among the first `n`.
pub open spec fn later_than(es: Seq<EmulatedEvent>, since: u64, n: int) -> Seq<int>
    decreases n,
{
    if n <= 0 {
        Seq::empty()
    } else if es[n - 1].timestamp > since {
        later_than(es, since, n - 1).push(n - 1)
    } else {
        later_than(es, since, n - 1)
    }
}

/// The events raised on the emulator, in the order they were raised.
pub struct EmulatorEvents {
    events: Vec<EmulatedEvent>,
}

impl EmulatorEvents {
    /// The events, in order.
    pub closed spec fn events(&self) -> Seq<EmulatedEvent> {
        self.events@
    }

    /// No events.
    pub fn new() -> (r: Self)
        ensures
            r.events() == Seq::<EmulatedEvent>::empty(),
    {
        EmulatorEvents { events: Vec::new() }
    }

    /// Raises an event at time `timestamp` (milliseconds since the Unix epoch).
    pub fn trigger_event_at(&mut self, event_type: String, data: HashMap<String, String>, timestamp: u64)
        ensures
            final(self).events() == old(self).events().push(
                EmulatedEvent { event_type: event_type, timestamp: timestamp, data: data },
            ),
    {
        self.events.push(EmulatedEvent { event_type, timestamp, data });
    }

    /// Copies of the events later than `since_timestamp`, in order.
    pub fn get_events(&self, since_timestamp: u64) -> (r: Vec<EmulatedEvent>)
        ensures
            r@.len() == later_than(self.events(), since_timestamp, self.events().len() as int).len(),
            forall|k: int|
                0 <= k < r@.len() ==> {
                    let e = self.events()[later_than(
                        self.events(),
                        since_timestamp,
                        self.events().len() as int,
                    )[k]];
                    &&& (#[trigger] r@[k]).event_type@ == e.event_type@
                    &&& r@[k].timestamp == e.timestamp
                    &&& r@[k].data@ == e.data@
                },
    {
        let ghost es = self.events@;
        let mut r: Vec<EmulatedEvent> = Vec::new();
        let n = self.events.len();
        for i in 0..n
            invariant
                n == es.len(),
                es == self.events@,
                r@.len() == later_than(es, since_timestamp, i as int).len(),
                forall|k: int|
                    0 <= k < r@.len() ==> {
                        let e = es[later_than(es, since_timestamp, i as int)[k]];
                        &&& (#[trigger] r@[k]).event_type@ == e.event_type@
                        &&& r@[k].timestamp == e.timestamp
                        &&& r@[k].data@ == e.data@
                    },
        {
            if self.events[i].timestamp > since_timestamp {
                let c = self.events[i].copy();
                r.push(c);
                assert(later_than(es, since_timestamp, i + 1) == later_than(
                    es,
                    since_timestamp,
                    i as int,
                ).push(i as int));
            } else {
                assert(later_than(es, since_timestamp, i + 1) == later_than(
                    es,
                    since_timestamp,
                    i as int,
                ));
            }
        }
        r
    }

    /// Forgets every event.
    pub fn clear_events(&mut self)
        ensures
            final(self).events() == Seq::<EmulatedEvent>::empty(),
    {
        self.events.clear();
    }
}

/// The events that a query for those later than `since` gets are exactly the
/// raised events later than `since`, each once, in the order they were raised.
pub proof fn law_event_query_is_exact(es: Seq<EmulatedEvent>, since: u64, n: int)
    requires
        0 <= n <= es.len(),
    ensures
        forall|k: int|
            0 <= k < later_than(es, since, n).len() ==> {
                let i = #[trigger] later_than(es, since, n)[k];
                0 <= i < n && es[i].timestamp > since
            },
        forall|i: int|
            0 <= i < n && es[i].timestamp > since ==> #[trigger] later_than(es, since, n).contains(
                i,
            ),
        forall|a: int, b: int|
            0 <= a < b < later_than(es, since, n).len() ==> #[trigger] later_than(es, since, n)[a]
                < #[trigger] later_than(es, since, n)[b],
    decreases n,
{
    if n > 0 {
        law_event_query_is_exact(es, since, n - 1);
        let prev = later_than(es, since, n - 1);
        let cur = later_than(es, since, n);
        if es[n - 1].timestamp > since {
            assert(cur == prev.push(n - 1));
            assert(cur[prev.len() as int] == n - 1);
            assert forall|i: int| 0 <= i < n && es[i].timestamp > since implies cur.contains(i) by {
                if i < n - 1 {
                    assert(prev.contains(i));
                    let w = choose|w: int| 0 <= w < prev.len() && prev[w] == i;
                    assert(cur[w] == i);
                }
            }
        } else {
            assert(cur == prev);
            assert forall|i: int| 0 <= i < n && es[i].timestamp > since implies cur.contains(i) by {
                assert(prev.contains(i));
            }
        }
    }
}

/// Where an object of the emulated map stands; the caller places each kind.
#[derive(Debug, Clone, Copy, PartialEq, Eq, Structural)]
pub enum ObjectPlace {
    Player,
    /// One of the three enemies around the player.
    Enemy(u8),
    /// One of the two allies around the player.
    Ally(u8),
    FriendlyAirfield,
    EnemyAirfield,
    /// The enemy, neutral and friendly capture zones.
    ZoneA,
    ZoneB,
    ZoneC,
    FriendlyFighterSpawn,
    FriendlyBomberSpawn,
    EnemyFighterSpawn,
}

/// The objects of the emulated map, in order: the player, three enemies and two
/// allies; for aircraft two airfields; for tanks three capture zones; for
/// aircraft three respawn points.
pub open spec fn emulated_layout(vt: VehicleType) -> Seq<ObjectPlace> {
    let units = seq![
        ObjectPlace::Player,
        ObjectPlace::Enemy(0),
        ObjectPlace::Enemy(1),
        ObjectPlace::Enemy(2),
        ObjectPlace::Ally(0),
        ObjectPlace::Ally(1),
    ];
    let airfields = if vt == VehicleType::Aircraft {
        seq![ObjectPlace::FriendlyAirfield, ObjectPlace::EnemyAirfield]
    } else {
        Seq::empty()
    };
    let zones = if vt == VehicleType::Tank {
        seq![ObjectPlace::ZoneA, ObjectPlace::ZoneB, ObjectPlace::ZoneC]
    } else {
        Seq::empty()
    };
    let spawns = if vt == VehicleType::Aircraft {
        seq![
            ObjectPlace::FriendlyFighterSpawn,
            ObjectPlace::FriendlyBomberSpawn,
            ObjectPlace::EnemyFighterSpawn,
        ]
    } else {
        Seq::empty()
    };
    units + airfields + zones + spawns
}

/// The type, colour and icon of an object of the emulated map: units are ground
/// models in the player's yellow, the enemy red or the friendly blue, the others
/// drawn with the icon of their type.
pub open spec fn place_info(p: ObjectPlace, vt: VehicleType) -> (Seq<char>, Seq<char>, Seq<char>) {
    match p {
        ObjectPlace::Player => ("ground_model"@, "#faC81E"@, "Player"@),
        ObjectPlace::Enemy(_) => ("ground_model"@, "#fa0C00"@, icon_spec(vt)),
        ObjectPlace::Ally(_) => ("ground_model"@, "#174DFF"@, icon_spec(vt)),
        ObjectPlace::FriendlyAirfield => ("airfield"@, "#174DFF"@, "none"@),
        ObjectPlace::EnemyAirfield => ("airfield"@, "#fa0C00"@, "none"@),
        ObjectPlace::ZoneA => ("capture_zone"@, "#fa0C00"@, "capture_zone"@),
        ObjectPlace::ZoneB => ("capture_zone"@, "#FFFFFF"@, "capture_zone"@),
        ObjectPlace::ZoneC => ("capture_zone"@, "#174DFF"@, "capture_zone"@),
        ObjectPlace::FriendlyFighterSpawn => ("respawn_base_fighter"@, "#174DFF"@, "respawn_base_fighter"@),
        ObjectPlace::FriendlyBomberSpawn => ("respawn_base_bomber"@, "#174DFF"@, "respawn_base_bomber"@),
        ObjectPlace::EnemyFighterSpawn => ("respawn_base_fighter"@, "#fa0C00"@, "respawn_base_fighter"@),
    }
}

/// An object of the emulated map: what it is, and where it stands.
pub struct EmulatedMapObject {
    pub info: MapObjectInfo,
    pub place: ObjectPlace,
}

/// The object that stands at `p` on the emulated map of a `vt`.
pub fn place_object(p: ObjectPlace, vt: VehicleType) -> (r: EmulatedMapObject)
    ensures
        r.place == p,
        (r.info.obj_type@, r.info.color@, r.info.icon@) == place_info(p, vt),
{
    let (t, c, i) = match p {
        ObjectPlace::Player => ("ground_model", "#faC81E", String::from_str("Player")),
        ObjectPlace::Enemy(_) => ("ground_model", "#fa0C00", map_icon(vt)),
        ObjectPlace::Ally(_) => ("ground_model", "#174DFF", map_icon(vt)),
        ObjectPlace::FriendlyAirfield => ("airfield", "#174DFF", String::from_str("none")),
        ObjectPlace::EnemyAirfield => ("airfield", "#fa0C00", String::from_str("none")),
        ObjectPlace::ZoneA => ("capture_zone", "#fa0C00", String::from_str("capture_zone")),
        ObjectPlace::ZoneB => ("capture_zone", "#FFFFFF", String::from_str("capture_zone")),
        ObjectPlace::ZoneC => ("capture_zone", "#174DFF", String::from_str("capture_zone")),
        ObjectPlace::FriendlyFighterSpawn => (
            "respawn_base_fighter",
            "#174DFF",
            String::from_str("respawn_base_fighter"),
        ),
        ObjectPlace::FriendlyBomberSpawn => (
            "respawn_base_bomber",
            "#174DFF",
            String::from_str("respawn_base_bomber"),
        ),
        ObjectPlace::EnemyFighterSpawn => (
            "respawn_base_fighter",
            "#fa0C00",
            String::from_str("respawn_base_fighter"),
        ),
    };
    EmulatedMapObject {
        info: MapObjectInfo { obj_type: String::from_str(t), color: String::from_str(c), icon: i },
        place: p,
    }
}

/// The objects of the emulated map of a `vt`, in the order of `emulated_layout`.
pub fn emulated_map_objects(vt: VehicleType) -> (r: Vec<EmulatedMapObject>)
    ensures
        r@.len() == emulated_layout(vt).len(),
        forall|k: int|
            0 <= k < r@.len() ==> {
                &&& (#[trigger] r@[k]).place == emulated_layout(vt)[k]
                &&& (r@[k].info.obj_type@, r@[k].info.color@, r@[k].info.icon@) == place_info(
                    emulated_layout(vt)[k],
                    vt,
                )
            },
{
    let mut places: Vec<ObjectPlace> = Vec::new();
    places.push(ObjectPlace::Player);
    places.push(ObjectPlace::Enemy(0));
    places.push(ObjectPlace::Enemy(1));
    places.push(ObjectPlace::Enemy(2));
    places.push(ObjectPlace::Ally(0));
    places.push(ObjectPlace::Ally(1));
    if vt == VehicleType::Aircraft {
        places.push(ObjectPlace::FriendlyAirfield);
        places.push(ObjectPlace::EnemyAirfield);
    }
    if vt == VehicleType::Tank {
        places.push(ObjectPlace::ZoneA);
        places.push(ObjectPlace::ZoneB);
        places.push(ObjectPlace::ZoneC);
    }
    if vt == VehicleType::Aircraft {
        places.push(ObjectPlace::FriendlyFighterSpawn);
        places.push(ObjectPlace::FriendlyBomberSpawn);
        places.push(ObjectPlace::EnemyFighterSpawn);
    }
    assert(places@ =~= emulated_layout(vt));
    let mut r: Vec<EmulatedMapObject> = Vec::new();
    let n = places.len();
    for k in 0..n
        invariant
            n == places@.len(),
            places@ == emulated_layout(vt),
            r@.len() == k,
            forall|j: int|
                0 <= j < k ==> {
                    &&& (#[trigger] r@[j]).place == emulated_layout(vt)[j]
                    &&& (r@[j].info.obj_type@, r@[j].info.color@, r@[j].info.icon@) == place_info(
                        emulated_layout(vt)[j],
                        vt,
                    )
                },
    {
        r.push(place_object(places[k], vt));
    }
    r
}

/// The emulated map shows exactly one player marker, its first object, so a
/// search for the player finds the first object.
pub proof fn law_emulated_player_is_first(vt: VehicleType)
    ensures
        place_info(emulated_layout(vt)[0], vt).2 == "Player"@,
        forall|k: int|
            1 <= k < emulated_layout(vt).len() ==> place_info(#[trigger] emulated_layout(vt)[k], vt).2
                != "Player"@,
{
    reveal_strlit("Player");
    reveal_strlit("none");
    reveal_strlit("capture_zone");
    reveal_strlit("respawn_base_fighter");
    reveal_strlit("respawn_base_bomber");
    reveal_strlit("Tank");
    reveal_strlit("Aircraft");
    reveal_strlit("Ship");
    assert("Player"@[0] != "none"@[0]);
    assert("Player"@ != "Tank"@ && "Player"@ != "Aircraft"@ && "Player"@ != "Ship"@);
    assert("Player"@ != "none"@ && "Player"@ != "capture_zone"@);
    assert("Player"@ != "respawn_base_fighter"@ && "Player"@ != "respawn_base_bomber"@);
}

} // verus!
