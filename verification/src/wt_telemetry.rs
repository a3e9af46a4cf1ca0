//! Decisions on War Thunder telemetry (`127.0.0.1:8111`): which vehicle is
//! reported, and which HUD kill-feed lines are events of the player.
use vstd::prelude::*;

use crate::text::{
    after_first, after_last, after_last_char, before_first, chars_of, contains_chars, has_part,
    lemma_has_part_find, split_first_two, splits_in_two, str_contains, string_from_chars,
    trim, trim_chars,
};

verus! {

/// One message of the HUD feed.
#[derive(Debug)]
pub struct HudMessage {
    pub id: u32,
    pub msg: String,
    pub time: u32,
}

/// An event of the player read from the HUD feed.
#[derive(Debug, Clone)]
pub enum HudEvent {
    /// The player destroyed a vehicle (its name).
    Kill(String),
    Crashed,
    EngineOverheated,
    OilOverheated,
    /// The player set an enemy on fire (the enemy).
    SetAfire(String),
    /// The player was set on fire (by the attacker).
    TakeDamage(String),
    /// The player was severely damaged (by the attacker).
    SeverelyDamaged(String),
    /// The player was shot down (by the attacker).
    ShotDown(String),
    /// The player earned an achievement (its name).
    Achievement(String),
    /// Any other message (its text).
    ChatMessage(String),
}

/// A `HudEvent` with its texts as character sequences.
pub enum HudEventView {
    Kill(Seq<char>),
    Crashed,
    EngineOverheated,
    OilOverheated,
    SetAfire(Seq<char>),
    TakeDamage(Seq<char>),
    SeverelyDamaged(Seq<char>),
    ShotDown(Seq<char>),
    Achievement(Seq<char>),
    ChatMessage(Seq<char>),
}

impl DeepView for HudEvent {
    type V = HudEventView;

    open spec fn deep_view(&self) -> HudEventView {
        match self {
            HudEvent::Kill(s) => HudEventView::Kill(s@),
            HudEvent::Crashed => HudEventView::Crashed,
            HudEvent::EngineOverheated => HudEventView::EngineOverheated,
            HudEvent::OilOverheated => HudEventView::OilOverheated,
            HudEvent::SetAfire(s) => HudEventView::SetAfire(s@),
            HudEvent::TakeDamage(s) => HudEventView::TakeDamage(s@),
            HudEvent::SeverelyDamaged(s) => HudEventView::SeverelyDamaged(s@),
            HudEvent::ShotDown(s) => HudEventView::ShotDown(s@),
            HudEvent::Achievement(s) => HudEventView::Achievement(s@),
            HudEvent::ChatMessage(s) => HudEventView::ChatMessage(s@),
        }
    }
}

/// The kind of vehicle the player is in.
#[derive(Debug, Clone, Copy, PartialEq, Eq, Structural)]
pub enum VehicleType {
    Tank,
    Aircraft,
    Helicopter,
    Ship,
    Unknown,
}

/// Whether some name of `names` occurs in `msg`.
pub open spec fn mentions_any(msg: Seq<char>, names: Seq<Seq<char>>) -> bool {
    exists|i: int| 0 <= i < names.len() && #[trigger] has_part(msg, names[i])
}

/// Whether some string of `names` occurs in `msg`.
pub fn mentions(msg: &Vec<char>, names: &Vec<String>) -> (r: bool)
    ensures
        r == mentions_any(msg@, names.deep_view()),
{
    let n = names.len();
    for i in 0..n
        invariant
            n == names@.len(),
            forall|j: int| 0 <= j < i ==> !has_part(msg@, #[trigger] names.deep_view()[j]),
    {
        let nv = chars_of(names[i].as_str());
        if contains_chars(msg, &nv) {
            assert(has_part(msg@, names.deep_view()[i as int]));
            return true;
        }
    }
    false
}

/// Whether two character vectors are equal.
pub fn chars_eq(a: &Vec<char>, b: &Vec<char>) -> (r: bool)
    ensures
        r == (a@ == b@),
{
    if a.len() != b.len() {
        return false;
    }
    let n = a.len();
    for i in 0..n
        invariant
            n == a@.len() == b@.len(),
            forall|j: int| 0 <= j < i ==> a@[j] == b@[j],
    {
        if a[i] != b[i] {
            return false;
        }
    }
    assert(a@ =~= b@);
    true
}

/// Whether two strings have the same characters.
pub fn str_eq(a: &str, b: &str) -> (r: bool)
    ensures
        r == (a@ == b@),
{
    chars_eq(&chars_of(a), &chars_of(b))
}

/// The vehicle name in a telemetry `type` string: what follows its last `/`.
pub open spec fn vehicle_name_of(type_str: Seq<char>) -> Seq<char> {
    if type_str.contains('/') {
        after_last(type_str, '/')
    } else {
        type_str
    }
}

/// The vehicle kind guessed from a telemetry `type` string alone.
pub open spec fn type_from_name(t: Seq<char>) -> VehicleType {
    if has_part(t, "tankModels"@) || has_part(t, "tank_"@) {
        VehicleType::Tank
    } else if has_part(t, "ship"@) || has_part(t, "boat"@) {
        VehicleType::Ship
    } else if has_part(t, "helicopter"@) || has_part(t, "heli_"@) {
        VehicleType::Helicopter
    } else if t.len() != 0 && t != "unknown"@ {
        VehicleType::Aircraft
    } else {
        VehicleType::Unknown
    }
}

/// The vehicle kind from the telemetry `army` string, else from the `type` string.
pub open spec fn type_from_army(army: Seq<char>, t: Seq<char>) -> VehicleType {
    if army == "air"@ {
        VehicleType::Aircraft
    } else if army == "ground"@ || army == "tank"@ {
        VehicleType::Tank
    } else if army == "ship"@ {
        VehicleType::Ship
    } else if army == "helicopter"@ {
        VehicleType::Helicopter
    } else {
        type_from_name(t)
    }
}

/// Whether `v` holds the character `c`.
pub fn has_char(v: &Vec<char>, c: char) -> (r: bool)
    ensures
        r == v@.contains(c),
{
    let n = v.len();
    for i in 0..n
        invariant
            n == v@.len(),
            forall|j: int| 0 <= j < i ==> v@[j] != c,
    {
        if v[i] == c {
            assert(v@[i as int] == c);
            return true;
        }
    }
    false
}

/// The vehicle name in a telemetry `type` string ("tankModels/sw_cv_90105_tml"
/// names "sw_cv_90105_tml").
pub fn vehicle_name_from_type(type_str: &str) -> (r: String)
    ensures
        r@ == vehicle_name_of(type_str@),
{
    let v = chars_of(type_str);
    if has_char(&v, '/') {
        string_from_chars(&after_last_char(&v, '/'))
    } else {
        string_from_chars(&v)
    }
}

/// The vehicle kind guessed from a telemetry `type` string alone.
pub fn vehicle_type_from_name(type_str: &str) -> (r: VehicleType)
    ensures
        r == type_from_name(type_str@),
{
    if str_contains(type_str, "tankModels") || str_contains(type_str, "tank_") {
        VehicleType::Tank
    } else if str_contains(type_str, "ship") || str_contains(type_str, "boat") {
        VehicleType::Ship
    } else if str_contains(type_str, "helicopter") || str_contains(type_str, "heli_") {
        VehicleType::Helicopter
    } else if type_str.unicode_len() != 0 && !str_eq(type_str, "unknown") {
        VehicleType::Aircraft
    } else {
        VehicleType::Unknown
    }
}

/// The vehicle kind from the `army` field of `/indicators`, falling back to the
/// `type` field when the army is not one of the known ones.
pub fn vehicle_type_from_army(army: &str, type_str: &str) -> (r: VehicleType)
    ensures
        r == type_from_army(army@, type_str@),
{
    if str_eq(army, "air") {
        VehicleType::Aircraft
    } else if str_eq(army, "ground") || str_eq(army, "tank") {
        VehicleType::Tank
    } else if str_eq(army, "ship") {
        VehicleType::Ship
    } else if str_eq(army, "helicopter") {
        VehicleType::Helicopter
    } else {
        vehicle_type_from_name(type_str)
    }
}

/// A `state` string that reports damage to the flight controls.
pub open spec fn names_controls(s: Seq<char>) -> bool {
    has_part(s, "controls"@) || has_part(s, "aileron"@) || has_part(s, "elevator"@) || has_part(
        s,
        "rudder"@,
    )
}

/// Which damage flags the `state` strings of `/state` raise: engine, controls,
/// gear, flaps.
pub open spec fn damage_flags_of(states: Seq<Seq<char>>) -> (bool, bool, bool, bool) {
    (
        exists|i: int| 0 <= i < states.len() && #[trigger] has_part(states[i], "engine"@),
        exists|i: int| 0 <= i < states.len() && #[trigger] names_controls(states[i]),
        exists|i: int| 0 <= i < states.len() && #[trigger] has_part(states[i], "gear"@),
        exists|i: int| 0 <= i < states.len() && #[trigger] has_part(states[i], "flaps"@),
    )
}

/// Which damage flags the `state` strings raise: engine, controls, gear, flaps.
pub fn damage_flags(states: &Vec<String>) -> (r: (bool, bool, bool, bool))
    ensures
        r == damage_flags_of(states.deep_view()),
{
    let ghost sv = states.deep_view();
    let mut engine = false;
    let mut controls = false;
    let mut gear = false;
    let mut flaps = false;
    let n = states.len();
    for i in 0..n
        invariant
            n == states@.len(),
            sv == states.deep_view(),
            engine == exists|j: int| 0 <= j < i && #[trigger] has_part(sv[j], "engine"@),
            controls == exists|j: int| 0 <= j < i && #[trigger] names_controls(sv[j]),
            gear == exists|j: int| 0 <= j < i && #[trigger] has_part(sv[j], "gear"@),
            flaps == exists|j: int| 0 <= j < i && #[trigger] has_part(sv[j], "flaps"@),
    {
        let s = states[i].as_str();
        assert(s@ == sv[i as int]);
        if str_contains(s, "engine") {
            engine = true;
        }
        let c = str_contains(s, "controls") || str_contains(s, "aileron") || str_contains(
            s,
            "elevator",
        ) || str_contains(s, "rudder");
        assert(c == names_controls(sv[i as int]));
        if c {
            controls = true;
        }

        if str_contains(s, "gear") {
            gear = true;
        }
        if str_contains(s, "flaps") {
            flaps = true;
        }
    }
    (engine, controls, gear, flaps)
}


/// Names of the player and of the players to watch, as character sequences.
pub struct IdentityModel {
    pub players: Seq<Seq<char>>,
    pub clans: Seq<Seq<char>>,
    pub enemies: Seq<Seq<char>>,
    pub enemy_clans: Seq<Seq<char>>,
}

/// `msg` names the player, by name or clan tag.
pub open spec fn is_own(id: IdentityModel, msg: Seq<char>) -> bool {
    mentions_any(msg, id.players) || mentions_any(msg, id.clans)
}

/// `msg` names a watched enemy, by name or clan tag.
pub open spec fn is_watched_enemy(id: IdentityModel, msg: Seq<char>) -> bool {
    mentions_any(msg, id.enemies) || mentions_any(msg, id.enemy_clans)
}

/// The piece after the first `n` in `m`, or nothing.
pub open spec fn piece_after(m: Seq<char>, n: Seq<char>) -> Seq<char> {
    match after_first(m, n) {
        Some(p) => p,
        None => Seq::empty(),
    }
}

/// The event of an attack line "<attacker> `verb` <victim>" in which the player is
/// the victim, when the line splits in exactly two around `verb`.
pub open spec fn attacked_by(id: IdentityModel, m: Seq<char>, verb: Seq<char>) -> Option<Seq<char>> {
    if (id.players.len() > 0 || id.clans.len() > 0) && splits_in_two(m, verb) && is_own(
        id,
        trim(piece_after(m, verb)),
    ) {
        Some(trim(before_first(m, verb)))
    } else {
        None
    }
}

/// The player event that a HUD kill-feed line reports, if any.
pub open spec fn hud_event_for(id: IdentityModel, m: Seq<char>) -> Option<HudEventView> {
    let has_id = id.players.len() > 0 || id.clans.len() > 0;
    if has_part(m, "Engine overheated"@) {
        Some(HudEventView::EngineOverheated)
    } else if has_part(m, "Oil overheated"@) {
        Some(HudEventView::OilOverheated)
    } else if has_part(m, "has crashed"@) {
        if is_own(id, m) {
            Some(HudEventView::Crashed)
        } else {
            None
        }
    } else if has_part(m, "has achieved"@) || has_part(m, "has delivered"@) {
        let name = if has_part(m, "has achieved"@) {
            trim(piece_after(m, "has achieved"@))
        } else {
            trim(piece_after(m, "has delivered"@))
        };
        if is_own(id, m) && name.len() > 0 {
            Some(HudEventView::Achievement(name))
        } else {
            None
        }
    } else if has_part(m, "set afire"@) {
        let attacker = trim(before_first(m, "set afire"@));
        let victim = trim(piece_after(m, "set afire"@));
        if has_id && splits_in_two(m, "set afire"@) {
            if is_own(id, attacker) {
                Some(HudEventView::SetAfire(victim))
            } else if is_own(id, victim) {
                Some(HudEventView::TakeDamage(attacker))
            } else {
                None
            }
        } else {
            None
        }
    } else if has_part(m, "severely damaged"@) {
        match attacked_by(id, m, "severely damaged"@) {
            Some(a) => Some(HudEventView::SeverelyDamaged(a)),
            None => None,
        }
    } else if has_part(m, "shot down"@) {
        match attacked_by(id, m, "shot down"@) {
            Some(a) => Some(HudEventView::ShotDown(a)),
            None => None,
        }
    } else if has_part(m, "destroyed"@) {
        if has_id && is_own(id, before_first(m, "destroyed"@)) {
            Some(HudEventView::Kill(trim(piece_after(m, "destroyed"@))))
        } else {
            None
        }
    } else if has_part(m, "has been wrecked"@) {
        if has_id && is_own(id, before_first(m, "has been wrecked"@)) {
            Some(HudEventView::Kill(trim(piece_after(m, "has been wrecked"@))))
        } else {
            None
        }
    } else {
        None
    }
}

/// No keyword that the kill-feed reader looks for before "destroyed" occurs in `m`.
pub open spec fn no_earlier_hud_keyword(m: Seq<char>) -> bool {
    &&& !has_part(m, "Engine overheated"@)
    &&& !has_part(m, "Oil overheated"@)
    &&& !has_part(m, "has crashed"@)
    &&& !has_part(m, "has achieved"@)
    &&& !has_part(m, "has delivered"@)
    &&& !has_part(m, "set afire"@)
    &&& !has_part(m, "severely damaged"@)
    &&& !has_part(m, "shot down"@)
}

/// A kill is the player's own: a kill-feed line gives a `Kill` only when the text
/// before its first "destroyed" (or, in a line without "destroyed", before its
/// first "has been wrecked") names the player, and the victim is the text after
/// it. On a "destroyed" line with no earlier keyword, the line gives that kill
/// when the attacker part names the player (and the player is known), and no
/// event at all otherwise: the player's own death is never a kill.
pub proof fn law_kill_only_when_player_attacks(id: IdentityModel, m: Seq<char>)
    ensures
        hud_event_for(id, m) matches Some(HudEventView::Kill(victim)) ==> {
            let verb = if has_part(m, "destroyed"@) {
                "destroyed"@
            } else {
                "has been wrecked"@
            };
            &&& has_part(m, verb)
            &&& is_own(id, before_first(m, verb))
            &&& victim == trim(piece_after(m, verb))
        },
        no_earlier_hud_keyword(m) && has_part(m, "destroyed"@) && !is_own(id, before_first(m, "destroyed"@))
            ==> hud_event_for(id, m) is None,
        no_earlier_hud_keyword(m) && has_part(m, "destroyed"@) && is_own(id, before_first(m, "destroyed"@))
            ==> hud_event_for(id, m) == Some(HudEventView::Kill(trim(piece_after(m, "destroyed"@)))),
{
    if is_own(id, before_first(m, "destroyed"@)) {
        if mentions_any(before_first(m, "destroyed"@), id.players) {
            let i = choose|i: int| 0 <= i < id.players.len() && #[trigger] has_part(before_first(m, "destroyed"@), id.players[i]);
            assert(id.players.len() > 0);
        } else {
            let i = choose|i: int| 0 <= i < id.clans.len() && #[trigger] has_part(before_first(m, "destroyed"@), id.clans[i]);
            assert(id.clans.len() > 0);
        }
    }
}

/// Every event read from the kill feed is the player's own, and names the other
/// side of it: setting an enemy afire needs the part before "set afire" to name
/// the player and gives the part after it; being set afire, severely damaged or
/// shot down needs the part after the verb to name the player and gives the
/// part before it (the attacker); a crash or an achievement needs the line to
/// name the player. No event comes from a feed with no player names or clan tags,
/// but for the engine and oil warnings.
pub proof fn law_hud_events_are_the_players(id: IdentityModel, m: Seq<char>)
    ensures
        hud_event_for(id, m) matches Some(HudEventView::SetAfire(victim)) ==> has_part(m, "set afire"@)
            && is_own(id, trim(before_first(m, "set afire"@))) && victim == trim(piece_after(m, "set afire"@)),
        hud_event_for(id, m) matches Some(HudEventView::TakeDamage(attacker)) ==> has_part(m, "set afire"@)
            && is_own(id, trim(piece_after(m, "set afire"@))) && attacker == trim(before_first(m, "set afire"@)),
        hud_event_for(id, m) matches Some(HudEventView::SeverelyDamaged(attacker)) ==> has_part(
            m,
            "severely damaged"@,
        ) && is_own(id, trim(piece_after(m, "severely damaged"@))) && attacker == trim(
            before_first(m, "severely damaged"@),
        ),
        hud_event_for(id, m) matches Some(HudEventView::ShotDown(attacker)) ==> has_part(m, "shot down"@)
            && is_own(id, trim(piece_after(m, "shot down"@))) && attacker == trim(before_first(m, "shot down"@)),
        hud_event_for(id, m) matches Some(HudEventView::Crashed) ==> has_part(m, "has crashed"@) && is_own(id, m),
        hud_event_for(id, m) matches Some(HudEventView::Achievement(_)) ==> is_own(id, m),
        hud_event_for(id, m) matches Some(HudEventView::EngineOverheated) ==> has_part(m, "Engine overheated"@),
        hud_event_for(id, m) matches Some(HudEventView::OilOverheated) ==> has_part(m, "Oil overheated"@),
        !(hud_event_for(id, m) matches Some(HudEventView::ChatMessage(_))),
        id.players.len() == 0 && id.clans.len() == 0 && hud_event_for(id, m) is Some ==> hud_event_for(
            id,
            m,
        ) matches Some(HudEventView::EngineOverheated) || hud_event_for(id, m) matches Some(
            HudEventView::OilOverheated,
        ),
{
    if id.players.len() == 0 && id.clans.len() == 0 {
        assert forall|x: Seq<char>| !#[trigger] is_own(id, x) by {
            if mentions_any(x, id.players) {
                let i = choose|i: int| 0 <= i < id.players.len() && #[trigger] has_part(x, id.players[i]);
            }
            if mentions_any(x, id.clans) {
                let i = choose|i: int| 0 <= i < id.clans.len() && #[trigger] has_part(x, id.clans[i]);
            }
        }
    }
}

/// The names of the player and of the watched enemies.
pub struct Identity {
    pub player_names: Vec<String>,
    pub clan_tags: Vec<String>,
    pub enemy_names: Vec<String>,
    pub enemy_clans: Vec<String>,
}

impl Identity {
    /// The names as character sequences.
    pub open spec fn model(&self) -> IdentityModel {
        IdentityModel {
            players: self.player_names.deep_view(),
            clans: self.clan_tags.deep_view(),
            enemies: self.enemy_names.deep_view(),
            enemy_clans: self.enemy_clans.deep_view(),
        }
    }

    /// No names at all.
    pub fn new() -> (r: Identity)
        ensures
            r.model().players.len() == 0,
            r.model().clans.len() == 0,
            r.model().enemies.len() == 0,
            r.model().enemy_clans.len() == 0,
    {
        Identity {
            player_names: Vec::new(),
            clan_tags: Vec::new(),
            enemy_names: Vec::new(),
            enemy_clans: Vec::new(),
        }
    }

    /// Whether the message names the player, by name or clan tag.
    pub fn is_player_message(&self, msg: &Vec<char>) -> (r: bool)
        ensures
            r == is_own(self.model(), msg@),
    {
        mentions(msg, &self.player_names) || mentions(msg, &self.clan_tags)
    }

    /// Whether the message names a watched enemy, by name or clan tag.
    pub fn is_enemy_message(&self, msg: &Vec<char>) -> (r: bool)
        ensures
            r == is_watched_enemy(self.model(), msg@),
    {
        mentions(msg, &self.enemy_names) || mentions(msg, &self.enemy_clans)
    }

    /// The attacker of an attack line in which the player is the victim.
    fn attacker_of(&self, m: &Vec<char>, verb: &str) -> (r: Option<String>)
        requires
            verb@.len() > 0,
        ensures
            r matches Some(a) ==> attacked_by(self.model(), m@, verb@) == Some(a@),
            r is None ==> attacked_by(self.model(), m@, verb@) is None,
    {
        let vv = chars_of(verb);
        let (before, after, two) = split_first_two(m, &vv);
        if !(self.player_names.len() > 0 || self.clan_tags.len() > 0) || !two {
            return None;
        }
        let after = match after {
            Some(p) => p,
            None => Vec::new(),
        };
        let victim = trim_chars(&after);
        if self.is_player_message(&victim) {
            Some(string_from_chars(&trim_chars(&before)))
        } else {
            None
        }
    }

    /// The player event that a HUD kill-feed line reports, if any.
    pub fn parse_hud_message(&self, msg: &str) -> (r: Option<HudEvent>)
        ensures
            r.deep_view() == hud_event_for(self.model(), msg@),
    {
        let m = chars_of(msg);
        let has_id = self.player_names.len() > 0 || self.clan_tags.len() > 0;
        if str_contains(msg, "Engine overheated") {
            return Some(HudEvent::EngineOverheated);
        }
        if str_contains(msg, "Oil overheated") {
            return Some(HudEvent::OilOverheated);
        }
        if str_contains(msg, "has crashed") {
            if self.is_player_message(&m) {
                return Some(HudEvent::Crashed);
            }
            return None;
        }
        let achieved = str_contains(msg, "has achieved");
        if achieved || str_contains(msg, "has delivered") {
            let verb = if achieved {
                chars_of("has achieved")
            } else {
                chars_of("has delivered")
            };
            proof {
                reveal_strlit("has achieved");
                reveal_strlit("has delivered");
            }
            let (_, after, _) = split_first_two(&m, &verb);
            let after = match after {
                Some(p) => p,
                None => Vec::new(),
            };
            let name = trim_chars(&after);
            if self.is_player_message(&m) && name.len() > 0 {
                return Some(HudEvent::Achievement(string_from_chars(&name)));
            }
            return None;
        }
        if str_contains(msg, "set afire") {
            let verb = chars_of("set afire");
            proof {
                reveal_strlit("set afire");
            }
            let (before, after, two) = split_first_two(&m, &verb);
            let after = match after {
                Some(p) => p,
                None => Vec::new(),
            };
            let attacker = trim_chars(&before);
            let victim = trim_chars(&after);
            if has_id && two {
                if self.is_player_message(&attacker) {
                    return Some(HudEvent::SetAfire(string_from_chars(&victim)));
                }
                if self.is_player_message(&victim) {
                    return Some(HudEvent::TakeDamage(string_from_chars(&attacker)));
                }
            }
            return None;
        }
        if str_contains(msg, "severely damaged") {
            proof {
                reveal_strlit("severely damaged");
            }
            return match self.attacker_of(&m, "severely damaged") {
                Some(a) => Some(HudEvent::SeverelyDamaged(a)),
                None => None,
            };
        }
        if str_contains(msg, "shot down") {
            proof {
                reveal_strlit("shot down");
            }
            return match self.attacker_of(&m, "shot down") {
                Some(a) => Some(HudEvent::ShotDown(a)),
                None => None,
            };
        }
        let destroyed = str_contains(msg, "destroyed");
        if destroyed || str_contains(msg, "has been wrecked") {
            let verb = if destroyed {
                chars_of("destroyed")
            } else {
                chars_of("has been wrecked")
            };
            proof {
                reveal_strlit("destroyed");
                reveal_strlit("has been wrecked");
            }
            let (before, after, _) = split_first_two(&m, &verb);
            if has_id && self.is_player_message(&before) {
                let after = match after {
                    Some(p) => p,
                    None => Vec::new(),
                };
                return Some(HudEvent::Kill(string_from_chars(&trim_chars(&after))));
            }
            return None;
        }
        None
    }
}


/// One entry of the `damage` list of `/hudmsg`, as read: each field may be absent.
pub struct RawHudEntry {
    pub id: Option<u64>,
    pub msg: Option<String>,
    pub time: Option<u64>,
}

/// A `RawHudEntry` with its text as characters.
pub struct RawHudEntryView {
    pub id: Option<u64>,
    pub msg: Option<Seq<char>>,
    pub time: Option<u64>,
}

impl DeepView for RawHudEntry {
    type V = RawHudEntryView;

    open spec fn deep_view(&self) -> RawHudEntryView {
        RawHudEntryView {
            id: self.id,
            msg: match self.msg {
                Some(m) => Some(m@),
                None => None,
            },
            time: self.time,
        }
    }
}

/// The id of an entry (0 when absent), cut to 32 bits.
pub open spec fn entry_id(e: RawHudEntryView) -> u32 {
    (match e.id {
        Some(x) => x,
        None => 0,
    }) as u32
}

/// The battle time of an entry in seconds (0 when absent), cut to 32 bits.
pub open spec fn entry_time(e: RawHudEntryView) -> u32 {
    (match e.time {
        Some(x) => x,
        None => 0,
    }) as u32
}

/// The text of an entry (empty when absent).
pub open spec fn entry_msg(e: RawHudEntryView) -> Seq<char> {
    match e.msg {
        Some(m) => m,
        None => Seq::empty(),
    }
}

/// A message already handled: its battle time and text.
pub struct SeenMessage {
    pub time: u32,
    pub msg: String,
}

/// What the HUD feed reader remembers between polls.
#[verifier::ext_equal]
pub struct FeedModel {
    /// Highest id seen in the `events` list.
    pub evt_id: u32,
    /// Highest id handled in the `damage` list.
    pub dmg_id: u32,
    /// Whether the first poll with messages has been handled.
    pub initialized: bool,
    /// Latest battle time seen, in seconds.
    pub battle_time: u32,
    /// Messages handled recently: battle time and text.
    pub seen: Seq<(u32, Seq<char>)>,
    /// Text of the last message handled.
    pub last: Option<Seq<char>>,
}

/// A cached message of time `cached` is kept at battle time `now` while it is
/// less than 10 seconds older.
pub open spec fn still_recent(now: u32, cached: u32) -> bool {
    (if now >= cached {
        now - cached
    } else {
        0
    }) < 10
}

/// A message text that is passed on as chat when no player event is found in it.
pub open spec fn chat_worthy(m: Seq<char>) -> bool {
    &&& m.len() > 0
    &&& !has_part(m, "has disconnected"@)
    &&& !has_part(m, "NET_PLAYER_"@)
    &&& !has_part(m, "td! kd?"@)
}

/// An optional item as a sequence of zero or one items.
pub open spec fn opt_seq<T>(o: Option<T>) -> Seq<T> {
    match o {
        Some(x) => seq![x],
        None => Seq::empty(),
    }
}

/// Handling one `damage` entry after the first poll.
pub open spec fn feed_step(id: IdentityModel, f: FeedModel, e: RawHudEntryView) -> (
    FeedModel,
    Option<HudEventView>,
) {
    let eid = entry_id(e);
    let m = entry_msg(e);
    let t = entry_time(e);
    if eid <= f.dmg_id {
        (f, None)
    } else if t < f.battle_time {
        (FeedModel { dmg_id: eid, ..f }, None)
    } else {
        let f2 = if t > f.battle_time {
            FeedModel {
                dmg_id: eid,
                battle_time: t,
                seen: f.seen.filter(|p: (u32, Seq<char>)| still_recent(t, p.0)),
                ..f
            }
        } else {
            FeedModel { dmg_id: eid, ..f }
        };
        if f2.last == Some(m) || f2.seen.contains((t, m)) {
            (f2, None)
        } else {
            let f3 = FeedModel { seen: f2.seen.push((t, m)), last: Some(m), ..f2 };
            match hud_event_for(id, m) {
                Some(ev) => (f3, Some(ev)),
                None => if chat_worthy(m) {
                    (f3, Some(HudEventView::ChatMessage(m)))
                } else {
                    (f3, None)
                },
            }
        }
    }
}

/// Handling the `damage` entries one after the other after the first poll.
pub open spec fn feed_run(id: IdentityModel, f: FeedModel, es: Seq<RawHudEntryView>) -> (
    FeedModel,
    Seq<HudEventView>,
)
    decreases es.len(),
{
    if es.len() == 0 {
        (f, Seq::empty())
    } else {
        let (f1, evs) = feed_run(id, f, es.drop_last());
        let (f2, o) = feed_step(id, f1, es.last());
        (f2, evs + opt_seq(o))
    }
}

/// Handling one `damage` entry on the first poll: only entries at or after
/// `threshold` count, and only player events are passed on.
pub open spec fn init_step(id: IdentityModel, f: FeedModel, threshold: u32, e: RawHudEntryView) -> (
    FeedModel,
    Option<HudEventView>,
) {
    let m = entry_msg(e);
    let t = entry_time(e);
    if t >= threshold && !f.seen.contains((t, m)) {
        match hud_event_for(id, m) {
            Some(ev) => (FeedModel { seen: f.seen.push((t, m)), last: Some(m), ..f }, Some(ev)),
            None => (f, None),
        }
    } else {
        (f, None)
    }
}

/// Handling the `damage` entries of the first poll one after the other.
pub open spec fn init_run(
    id: IdentityModel,
    f: FeedModel,
    threshold: u32,
    es: Seq<RawHudEntryView>,
) -> (FeedModel, Seq<HudEventView>)
    decreases es.len(),
{
    if es.len() == 0 {
        (f, Seq::empty())
    } else {
        let (f1, evs) = init_run(id, f, threshold, es.drop_last());
        let (f2, o) = init_step(id, f1, threshold, es.last());
        (f2, evs + opt_seq(o))
    }
}

/// The largest of the given values, absent ones counted as 0.
pub open spec fn max_present(xs: Seq<Option<u64>>) -> u64
    decreases xs.len(),
{
    if xs.len() == 0 {
        0
    } else {
        let rest = max_present(xs.drop_last());
        let x = match xs.last() {
            Some(v) => v,
            None => 0,
        };
        if x > rest {
            x
        } else {
            rest
        }
    }
}

/// The event-list baseline after seeing the ids of the `events` list.
pub open spec fn events_baseline(start: u32, ids: Seq<Option<u64>>) -> u32
    decreases ids.len(),
{
    if ids.len() == 0 {
        start
    } else {
        let b = events_baseline(start, ids.drop_last());
        let x = (match ids.last() {
            Some(v) => v,
            None => 0,
        }) as u32;
        if x > b {
            x
        } else {
            b
        }
    }
}

/// One poll of `/hudmsg`: the ids of its `events` list and the entries of its
/// `damage` list turned into the next state and the player's events.
pub open spec fn poll_result(
    id: IdentityModel,
    f: FeedModel,
    event_ids: Seq<Option<u64>>,
    damage: Seq<RawHudEntryView>,
) -> (FeedModel, Seq<HudEventView>) {
    let f0 = FeedModel { evt_id: events_baseline(f.evt_id, event_ids), ..f };
    if !f0.initialized && damage.len() > 0 {
        let max_time = max_present(damage.map_values(|e: RawHudEntryView| e.time)) as u32;
        let max_id = max_present(damage.map_values(|e: RawHudEntryView| e.id)) as u32;
        let threshold = if max_time >= 15 {
            (max_time - 15) as u32
        } else {
            0
        };
        let (f1, evs) = init_run(id, f0, threshold, damage);
        (FeedModel { dmg_id: max_id, initialized: true, ..f1 }, evs)
    } else {
        let (f1, evs) = feed_run(id, f0, damage);
        (FeedModel { initialized: true, ..f1 }, evs)
    }
}

/// The handled-message cache holds no message twice.
pub open spec fn seen_distinct(s: Seq<(u32, Seq<char>)>) -> bool {
    forall|i: int, j: int| 0 <= i < j < s.len() ==> s[i] != s[j]
}

/// Well-formed feed state: no cached message twice, and no damage baseline
/// before the first poll has been handled.
pub open spec fn feed_wf(f: FeedModel) -> bool {
    &&& seen_distinct(f.seen)
    &&& (!f.initialized ==> f.dmg_id == 0)
}

/// Reads the HUD feed of the telemetry API and keeps the player's events.
pub struct HudTracker {
    identity: Identity,
    last_hud_evt_id: u32,
    last_hud_dmg_id: u32,
    hud_initialized: bool,
    last_battle_time: u32,
    processed_messages: Vec<SeenMessage>,
    last_message: Option<String>,
}

/// The cache as pairs of time and text.
pub open spec fn seen_model(v: Seq<SeenMessage>) -> Seq<(u32, Seq<char>)> {
    v.map_values(|s: SeenMessage| (s.time, s.msg@))
}

impl HudTracker {
    /// The names of the player and of the watched enemies.
    pub closed spec fn names(&self) -> IdentityModel {
        self.identity.model()
    }

    /// The state remembered between polls.
    pub closed spec fn feed(&self) -> FeedModel {
        FeedModel {
            evt_id: self.last_hud_evt_id,
            dmg_id: self.last_hud_dmg_id,
            initialized: self.hud_initialized,
            battle_time: self.last_battle_time,
            seen: seen_model(self.processed_messages@),
            last: match self.last_message {
                Some(m) => Some(m@),
                None => None,
            },
        }
    }

    /// The state is well formed.
    pub open spec fn wf(&self) -> bool {
        feed_wf(self.feed())
    }

    /// A reader that has seen nothing yet and knows no names.
    pub fn new() -> (r: HudTracker)
        ensures
            r.wf(),
            r.feed() == (FeedModel {
                evt_id: 0,
                dmg_id: 0,
                initialized: false,
                battle_time: 0,
                seen: Seq::empty(),
                last: None,
            }),
            r.names().players.len() == 0,
            r.names().clans.len() == 0,
            r.names().enemies.len() == 0,
            r.names().enemy_clans.len() == 0,
    {
        let r = HudTracker {
            identity: Identity::new(),
            last_hud_evt_id: 0,
            last_hud_dmg_id: 0,
            hud_initialized: false,
            last_battle_time: 0,
            processed_messages: Vec::new(),
            last_message: None,
        };
        assert(seen_model(r.processed_messages@) =~= Seq::empty());
        r
    }

    /// The highest id seen in the `events` list.
    pub fn last_event_id(&self) -> (r: u32)
        ensures
            r == self.feed().evt_id,
    {
        self.last_hud_evt_id
    }

    /// The highest id handled in the `damage` list.
    pub fn last_damage_id(&self) -> (r: u32)
        ensures
            r == self.feed().dmg_id,
    {
        self.last_hud_dmg_id
    }

    /// Whether `(time, msg)` is in the cache.
    fn seen_contains(&self, time: u32, msg: &String) -> (r: bool)
        ensures
            r == self.feed().seen.contains((time, msg@)),
    {
        let ghost sm = seen_model(self.processed_messages@);
        let n = self.processed_messages.len();
        for i in 0..n
            invariant
                n == self.processed_messages@.len(),
                sm == seen_model(self.processed_messages@),
                forall|j: int| 0 <= j < i ==> sm[j] != (time, msg@),
        {
            let e = &self.processed_messages[i];
            if e.time == time && e.msg == *msg {
                assert(sm[i as int] == (time, msg@));
                return true;
            }
        }
        proof {
            if sm.contains((time, msg@)) {
                let k = choose|k: int| 0 <= k < sm.len() && sm[k] == (time, msg@);
                assert(sm[k] != (time, msg@));
            }
        }
        false
    }

    /// Adds `(time, msg)` to the cache and makes `msg` the last message handled.
    fn remember(&mut self, time: u32, msg: &String)
        requires
            seen_distinct(old(self).feed().seen),
            !old(self).feed().seen.contains((time, msg@)),
        ensures
            final(self).feed() == (FeedModel {
                seen: old(self).feed().seen.push((time, msg@)),
                last: Some(msg@),
                ..old(self).feed()
            }),
            seen_distinct(final(self).feed().seen),
            final(self).names() == old(self).names(),
    {
        let ghost old_seen = seen_model(self.processed_messages@);
        self.processed_messages.push(SeenMessage { time, msg: msg.clone() });
        self.last_message = Some(msg.clone());
        assert(seen_model(self.processed_messages@) =~= old_seen.push((time, msg@)));
        assert forall|i: int, j: int|
            0 <= i < j < old_seen.len() + 1 implies #[trigger] old_seen.push((time, msg@))[i]
            != #[trigger] old_seen.push((time, msg@))[j] by {
            if j == old_seen.len() {
                assert(old_seen.contains(old_seen[i]));
            }
        }
    }

    /// Drops from the cache the messages 10 or more seconds older than `now`.
    fn forget_older_than(&mut self, now: u32)
        requires
            seen_distinct(old(self).feed().seen),
        ensures
            final(self).feed() == (FeedModel {
                seen: old(self).feed().seen.filter(|p: (u32, Seq<char>)| still_recent(now, p.0)),
                ..old(self).feed()
            }),
            seen_distinct(final(self).feed().seen),
            final(self).names() == old(self).names(),
    {
        let ghost old_seen = seen_model(self.processed_messages@);
        let ghost pred = |p: (u32, Seq<char>)| still_recent(now, p.0);
        let mut kept: Vec<SeenMessage> = Vec::new();
        let n = self.processed_messages.len();
        for i in 0..n
            invariant
                n == self.processed_messages@.len(),
                old_seen == seen_model(self.processed_messages@),
                pred == (|p: (u32, Seq<char>)| still_recent(now, p.0)),
                seen_model(kept@) == old_seen.take(i as int).filter(pred),
        {
            proof {
                reveal_with_fuel(Seq::<_>::filter, 1);
            }
            let e = &self.processed_messages[i];
            let ghost before = seen_model(kept@);
            let keep = if now >= e.time {
                now - e.time < 10
            } else {
                true
            };
            assert(old_seen[i as int] == (e.time, e.msg@));
            assert(keep == pred(old_seen[i as int]));
            assert(old_seen.take(i + 1).last() == old_seen[i as int]);
            if keep {
                kept.push(SeenMessage { time: e.time, msg: e.msg.clone() });
                assert(seen_model(kept@) =~= before.push(old_seen[i as int]));
            }
            assert(old_seen.take(i + 1).drop_last() =~= old_seen.take(i as int));
        }
        assert(old_seen.take(n as int) =~= old_seen);
        self.processed_messages = kept;
        proof {
            let f = old_seen.filter(pred);
            assert forall|i: int, j: int| 0 <= i < j < f.len() implies f[i] != f[j] by {
                lemma_filter_distinct(old_seen, pred, i, j);
            }
        }
    }
}

impl HudTracker {
    /// The text of an entry (empty when absent).
    fn entry_text(e: &RawHudEntry) -> (r: String)
        ensures
            r@ == entry_msg(e.deep_view()),
    {
        match &e.msg {
            Some(m) => m.clone(),
            None => String::new(),
        }
    }

    /// Whether a message without a player event is passed on as chat.
    fn is_chat_worthy(m: &String) -> (r: bool)
        ensures
            r == chat_worthy(m@),
    {
        let s = m.as_str();
        s.unicode_len() > 0 && !str_contains(s, "has disconnected") && !str_contains(
            s,
            "NET_PLAYER_",
        ) && !str_contains(s, "td! kd?")
    }

    /// Handles one `damage` entry after the first poll.
    fn handle_entry(&mut self, e: &RawHudEntry) -> (r: Option<HudEvent>)
        requires
            seen_distinct(old(self).feed().seen),
        ensures
            (final(self).feed(), r.deep_view()) == feed_step(
                old(self).names(),
                old(self).feed(),
                e.deep_view(),
            ),
            seen_distinct(final(self).feed().seen),
            final(self).names() == old(self).names(),
    {
        let eid: u32 = match e.id {
            Some(x) => x as u32,
            None => 0,
        };
        let t: u32 = match e.time {
            Some(x) => x as u32,
            None => 0,
        };
        let m = Self::entry_text(e);
        if eid <= self.last_hud_dmg_id {
            return None;
        }
        self.last_hud_dmg_id = eid;
        if t < self.last_battle_time {
            return None;
        }
        if t > self.last_battle_time {
            self.last_battle_time = t;
            self.forget_older_than(t);
        }
        let dup_last = match &self.last_message {
            Some(l) => *l == m,
            None => false,
        };
        if dup_last || self.seen_contains(t, &m) {
            return None;
        }
        self.remember(t, &m);
        match self.identity.parse_hud_message(m.as_str()) {
            Some(ev) => Some(ev),
            None => {
                if Self::is_chat_worthy(&m) {
                    Some(HudEvent::ChatMessage(m))
                } else {
                    None
                }
            },
        }
    }

    /// Handles one `damage` entry of the first poll.
    fn handle_first_entry(&mut self, threshold: u32, e: &RawHudEntry) -> (r: Option<HudEvent>)
        requires
            seen_distinct(old(self).feed().seen),
        ensures
            (final(self).feed(), r.deep_view()) == init_step(
                old(self).names(),
                old(self).feed(),
                threshold,
                e.deep_view(),
            ),
            seen_distinct(final(self).feed().seen),
            final(self).names() == old(self).names(),
    {
        let t: u32 = match e.time {
            Some(x) => x as u32,
            None => 0,
        };
        let m = Self::entry_text(e);
        if t >= threshold && !self.seen_contains(t, &m) {
            match self.identity.parse_hud_message(m.as_str()) {
                Some(ev) => {
                    self.remember(t, &m);
                    Some(ev)
                },
                None => None,
            }
        } else {
            None
        }
    }
}

/// The largest of the given values, absent ones counted as 0.
pub fn max_of_present(xs: &Vec<Option<u64>>) -> (r: u64)
    ensures
        r == max_present(xs@),
{
    let mut best: u64 = 0;
    let n = xs.len();
    for i in 0..n
        invariant
            n == xs@.len(),
            best == max_present(xs@.take(i as int)),
    {
        assert(xs@.take(i + 1).drop_last() =~= xs@.take(i as int));
        let x = match xs[i] {
            Some(v) => v,
            None => 0,
        };
        if x > best {
            best = x;
        }
    }
    assert(xs@.take(n as int) =~= xs@);
    best
}

impl HudTracker {
    /// Takes in one poll of `/hudmsg`: the ids of its `events` list and the entries
    /// of its `damage` list. Returns the player's events in the order of the entries.
    ///
    /// On the first poll with damage entries, only the entries of the last 15
    /// seconds of battle time are considered, and only player events are passed
    /// on; the damage baseline then becomes the highest id of that poll. After
    /// that, an entry counts only if its id is above the baseline, its battle time
    /// is not before the latest one seen, it repeats neither the last message nor
    /// a cached one; it is then passed on as the player's event it reports, or
    /// else as chat.
    pub fn process_poll(&mut self, event_ids: &Vec<Option<u64>>, damage: &Vec<RawHudEntry>) -> (r:
        Vec<HudEvent>)
        requires
            old(self).wf(),
        ensures
            final(self).wf(),
            final(self).names() == old(self).names(),
            (final(self).feed(), r.deep_view()) == poll_result(
                old(self).names(),
                old(self).feed(),
                event_ids@,
                damage.deep_view(),
            ),
    {
        let ghost names = self.names();
        let ghost dv = damage.deep_view();
        let ne = event_ids.len();
        for i in 0..ne
            invariant
                ne == event_ids@.len(),
                self.last_hud_evt_id == events_baseline(old(self).feed().evt_id, event_ids@.take(i as int)),
                self.feed() == (FeedModel { evt_id: self.last_hud_evt_id, ..old(self).feed() }),
                self.names() == names,
        {
            assert(event_ids@.take(i + 1).drop_last() =~= event_ids@.take(i as int));
            let id: u32 = match event_ids[i] {
                Some(v) => v as u32,
                None => 0,
            };
            if id > self.last_hud_evt_id {
                self.last_hud_evt_id = id;
            }
        }
        assert(event_ids@.take(ne as int) =~= event_ids@);
        let ghost f0 = self.feed();
        let mut events: Vec<HudEvent> = Vec::new();
        let nd = damage.len();
        if !self.hud_initialized && nd > 0 {
            let mut times: Vec<Option<u64>> = Vec::new();
            let mut ids: Vec<Option<u64>> = Vec::new();
            for i in 0..nd
                invariant
                    nd == damage@.len(),
                    dv == damage.deep_view(),
                    times@ == dv.take(i as int).map_values(|e: RawHudEntryView| e.time),
                    ids@ == dv.take(i as int).map_values(|e: RawHudEntryView| e.id),
            {
                times.push(damage[i].time);
                ids.push(damage[i].id);
                assert(times@ =~= dv.take(i + 1).map_values(|e: RawHudEntryView| e.time));
                assert(ids@ =~= dv.take(i + 1).map_values(|e: RawHudEntryView| e.id));
            }
            assert(dv.take(nd as int) =~= dv);
            let max_time = max_of_present(&times) as u32;
            let max_id = max_of_present(&ids) as u32;
            let threshold: u32 = if max_time >= 15 {
                max_time - 15
            } else {
                0
            };
            for i in 0..nd
                invariant
                    nd == damage@.len(),
                    dv == damage.deep_view(),
                    seen_distinct(self.feed().seen),
                    self.names() == names,
                    (self.feed(), events.deep_view()) == init_run(
                        names,
                        f0,
                        threshold,
                        dv.take(i as int),
                    ),
            {
                assert(dv.take(i + 1).drop_last() =~= dv.take(i as int));
                let ghost evs0 = events.deep_view();
                let o = self.handle_first_entry(threshold, &damage[i]);
                if let Some(ev) = o {
                    events.push(ev);
                }
                assert(events.deep_view() =~= evs0 + opt_seq(o.deep_view()));
            }
            assert(dv.take(nd as int) =~= dv);
            self.last_hud_dmg_id = max_id;
            self.hud_initialized = true;
            return events;
        }
        for i in 0..nd
            invariant
                nd == damage@.len(),
                dv == damage.deep_view(),
                seen_distinct(self.feed().seen),
                self.names() == names,
                (self.feed(), events.deep_view()) == feed_run(names, f0, dv.take(i as int)),
        {
            assert(dv.take(i + 1).drop_last() =~= dv.take(i as int));
            let ghost evs0 = events.deep_view();
            let o = self.handle_entry(&damage[i]);
            if let Some(ev) = o {
                events.push(ev);
            }
            assert(events.deep_view() =~= evs0 + opt_seq(o.deep_view()));
        }
        assert(dv.take(nd as int) =~= dv);
        self.hud_initialized = true;
        events
    }
}

/// Filtering keeps a sequence's elements distinct.
pub proof fn lemma_filter_distinct<T>(s: Seq<T>, pred: spec_fn(T) -> bool, i: int, j: int)
    requires
        forall|a: int, b: int| 0 <= a < b < s.len() ==> s[a] != s[b],
        0 <= i < j < s.filter(pred).len(),
    ensures
        s.filter(pred)[i] != s.filter(pred)[j],
    decreases s.len(),
{
    let f = s.filter(pred);
    reveal_with_fuel(Seq::<_>::filter, 1);
    let g = s.drop_last().filter(pred);
    assert forall|a: int, b: int| 0 <= a < b < s.drop_last().len() implies s.drop_last()[a]
        != s.drop_last()[b] by {
        assert(s.drop_last()[a] == s[a] && s.drop_last()[b] == s[b]);
    }
    if pred(s.last()) {
        assert(f == g.push(s.last()));
        if j == g.len() {
            assert(g.contains(g[i]));
            s.drop_last().lemma_filter_contains_rev(pred, g[i]);
            assert(s.drop_last().contains(g[i]));
            let k = choose|k: int| 0 <= k < s.drop_last().len() && s.drop_last()[k] == g[i];
            assert(s[k] == s[s.len() - 1] ==> k == s.len() - 1);
        } else {
            lemma_filter_distinct(s.drop_last(), pred, i, j);
        }
    } else {
        assert(f == g);
        lemma_filter_distinct(s.drop_last(), pred, i, j);
    }
}

} // verus!

verus! {

impl HudTracker {
    /// The player's names.
    pub fn get_player_names(&self) -> (r: Vec<String>)
        ensures
            r.deep_view() == self.names().players,
    {
        copy_strings(&self.identity.player_names)
    }

    /// Replaces the player's names.
    pub fn set_player_names(&mut self, names: Vec<String>)
        ensures
            final(self).names() == (IdentityModel { players: names.deep_view(), ..old(self).names() }),
            final(self).feed() == old(self).feed(),
    {
        self.identity.player_names = names;
    }

    /// The player's clan tags.
    pub fn get_clan_tags(&self) -> (r: Vec<String>)
        ensures
            r.deep_view() == self.names().clans,
    {
        copy_strings(&self.identity.clan_tags)
    }

    /// Replaces the player's clan tags.
    pub fn set_clan_tags(&mut self, tags: Vec<String>)
        ensures
            final(self).names() == (IdentityModel { clans: tags.deep_view(), ..old(self).names() }),
            final(self).feed() == old(self).feed(),
    {
        self.identity.clan_tags = tags;
    }

    /// The names of the watched enemies.
    pub fn get_enemy_names(&self) -> (r: Vec<String>)
        ensures
            r.deep_view() == self.names().enemies,
    {
        copy_strings(&self.identity.enemy_names)
    }

    /// Replaces the names of the watched enemies.
    pub fn set_enemy_names(&mut self, names: Vec<String>)
        ensures
            final(self).names() == (IdentityModel { enemies: names.deep_view(), ..old(self).names() }),
            final(self).feed() == old(self).feed(),
    {
        self.identity.enemy_names = names;
    }

    /// The clan tags of the watched enemies.
    pub fn get_enemy_clans(&self) -> (r: Vec<String>)
        ensures
            r.deep_view() == self.names().enemy_clans,
    {
        copy_strings(&self.identity.enemy_clans)
    }

    /// Replaces the clan tags of the watched enemies.
    pub fn set_enemy_clans(&mut self, clans: Vec<String>)
        ensures
            final(self).names() == (IdentityModel {
                enemy_clans: clans.deep_view(),
                ..old(self).names()
            }),
            final(self).feed() == old(self).feed(),
    {
        self.identity.enemy_clans = clans;
    }

    /// Whether the message names the player, by name or clan tag.
    pub fn is_player_message(&self, msg: &str) -> (r: bool)
        ensures
            r == is_own(self.names(), msg@),
    {
        self.identity.is_player_message(&chars_of(msg))
    }

    /// Whether the message names a watched enemy, by name or clan tag.
    pub fn is_enemy_message(&self, msg: &str) -> (r: bool)
        ensures
            r == is_watched_enemy(self.names(), msg@),
    {
        self.identity.is_enemy_message(&chars_of(msg))
    }

    /// The player event that a HUD kill-feed line reports, if any.
    pub fn parse_hud_message(&self, msg: &str) -> (r: Option<HudEvent>)
        ensures
            r.deep_view() == hud_event_for(self.names(), msg@),
    {
        self.identity.parse_hud_message(msg)
    }
}

/// Copies of the given strings.
pub fn copy_strings(v: &Vec<String>) -> (r: Vec<String>)
    ensures
        r.deep_view() == v.deep_view(),
{
    let mut r: Vec<String> = Vec::new();
    let n = v.len();
    for i in 0..n
        invariant
            n == v@.len(),
            r.deep_view() == v.deep_view().take(i as int),
    {
        let c = v[i].clone();
        let ghost before = r.deep_view();
        r.push(c);
        assert(r.deep_view() =~= before.push(v@[i as int]@));
        assert(v.deep_view()[i as int] == v@[i as int]@);
        assert(r.deep_view() =~= v.deep_view().take(i + 1));
    }
    assert(v.deep_view().take(n as int) =~= v.deep_view());
    r
}

/// The largest present value bounds every value, and stays below 2^32 when they all do.
pub proof fn lemma_max_present(xs: Seq<Option<u64>>)
    ensures
        forall|k: int|
            0 <= k < xs.len() ==> (match #[trigger] xs[k] {
                Some(v) => v,
                None => 0,
            }) <= max_present(xs),
        (forall|k: int| 0 <= k < xs.len() ==> (#[trigger] xs[k] matches Some(v) ==> v < 0x1_0000_0000))
            ==> max_present(xs) < 0x1_0000_0000,
    decreases xs.len(),
{
    if xs.len() > 0 {
        lemma_max_present(xs.drop_last());
        assert forall|k: int| 0 <= k < xs.len() - 1 implies #[trigger] xs[k] == xs.drop_last()[k] by {}
    }
}

/// The event baseline bounds the ids seen and the start, and stays at the start
/// when no id exceeds it.
pub proof fn lemma_events_baseline(start: u32, ids: Seq<Option<u64>>)
    ensures
        events_baseline(start, ids) >= start,
        forall|k: int|
            0 <= k < ids.len() ==> ((match #[trigger] ids[k] {
                Some(v) => v,
                None => 0,
            }) as u32) <= events_baseline(start, ids),
        (forall|k: int|
            0 <= k < ids.len() ==> ((match #[trigger] ids[k] {
                Some(v) => v,
                None => 0,
            }) as u32) <= start) ==> events_baseline(start, ids) == start,
    decreases ids.len(),
{
    if ids.len() > 0 {
        lemma_events_baseline(start, ids.drop_last());
        assert forall|k: int| 0 <= k < ids.len() - 1 implies #[trigger] ids[k] == ids.drop_last()[k] by {}
    }
}

/// Handling entries never lowers the damage baseline, leaves it at or above every
/// id handled, and keeps the other counters' meaning.
pub proof fn lemma_feed_run_baseline(id: IdentityModel, f: FeedModel, es: Seq<RawHudEntryView>)
    ensures
        feed_run(id, f, es).0.dmg_id >= f.dmg_id,
        forall|k: int| 0 <= k < es.len() ==> entry_id(#[trigger] es[k]) <= feed_run(id, f, es).0.dmg_id,
        feed_run(id, f, es).0.evt_id == f.evt_id,
        feed_run(id, f, es).0.initialized == f.initialized,
    decreases es.len(),
{
    if es.len() > 0 {
        lemma_feed_run_baseline(id, f, es.drop_last());
        assert forall|k: int| 0 <= k < es.len() - 1 implies #[trigger] es[k] == es.drop_last()[k] by {}
    }
}

/// Entries whose ids are all at or below the baseline change nothing and report nothing.
pub proof fn lemma_feed_run_silent(id: IdentityModel, f: FeedModel, es: Seq<RawHudEntryView>)
    requires
        forall|k: int| 0 <= k < es.len() ==> entry_id(#[trigger] es[k]) <= f.dmg_id,
    ensures
        feed_run(id, f, es) == (f, Seq::<HudEventView>::empty()),
    decreases es.len(),
{
    if es.len() > 0 {
        assert forall|k: int| 0 <= k < es.len() - 1 implies entry_id(#[trigger] es.drop_last()[k])
            <= f.dmg_id by {
            assert(es.drop_last()[k] == es[k]);
        }
        lemma_feed_run_silent(id, f, es.drop_last());
        assert(entry_id(es[es.len() - 1]) <= f.dmg_id);
        assert(Seq::<HudEventView>::empty() + opt_seq::<HudEventView>(None) =~= Seq::<
            HudEventView,
        >::empty());
    }
}

/// The HUD feed never goes back: the event and damage baselines only grow, and the
/// state stays well formed.
pub proof fn law_poll_baselines_grow(
    id: IdentityModel,
    f: FeedModel,
    event_ids: Seq<Option<u64>>,
    damage: Seq<RawHudEntryView>,
)
    requires
        feed_wf(f),
    ensures
        poll_result(id, f, event_ids, damage).0.evt_id >= f.evt_id,
        poll_result(id, f, event_ids, damage).0.dmg_id >= f.dmg_id,
        poll_result(id, f, event_ids, damage).0.initialized,
{
    lemma_events_baseline(f.evt_id, event_ids);
    let f0 = FeedModel { evt_id: events_baseline(f.evt_id, event_ids), ..f };
    if !f0.initialized && damage.len() > 0 {
        let max_t = max_present(damage.map_values(|e: RawHudEntryView| e.time)) as u32;
        let th = if max_t >= 15 {
            (max_t - 15) as u32
        } else {
            0
        };
        lemma_init_run_counters(id, f0, th, damage);
    } else {
        lemma_feed_run_baseline(id, f0, damage);
    }
}

/// The first-poll pass keeps the counters.
pub proof fn lemma_init_run_counters(
    id: IdentityModel,
    f: FeedModel,
    threshold: u32,
    es: Seq<RawHudEntryView>,
)
    ensures
        init_run(id, f, threshold, es).0.evt_id == f.evt_id,
    decreases es.len(),
{
    if es.len() > 0 {
        lemma_init_run_counters(id, f, threshold, es.drop_last());
    }
}

/// Taking in the same poll a second time reports nothing and changes nothing: no
/// HUD message is passed on twice (for damage ids below 2^32, the range of the
/// baseline).
pub proof fn law_poll_replay_is_silent(
    id: IdentityModel,
    f: FeedModel,
    event_ids: Seq<Option<u64>>,
    damage: Seq<RawHudEntryView>,
)
    requires
        feed_wf(f),
        forall|k: int| 0 <= k < damage.len() ==> (#[trigger] damage[k].id matches Some(v) ==> v < 0x1_0000_0000),
    ensures
        poll_result(id, poll_result(id, f, event_ids, damage).0, event_ids, damage) == (
            poll_result(id, f, event_ids, damage).0,
            Seq::<HudEventView>::empty(),
        ),
{
    let f1 = poll_result(id, f, event_ids, damage).0;
    lemma_events_baseline(f.evt_id, event_ids);
    let b = events_baseline(f.evt_id, event_ids);
    let f0 = FeedModel { evt_id: b, ..f };
    law_poll_baselines_grow(id, f, event_ids, damage);
    if !f0.initialized && damage.len() > 0 {
        let max_t = max_present(damage.map_values(|e: RawHudEntryView| e.time)) as u32;
        let th = if max_t >= 15 {
            (max_t - 15) as u32
        } else {
            0
        };
        lemma_init_run_counters(id, f0, th, damage);
        let idv = damage.map_values(|e: RawHudEntryView| e.id);
        lemma_max_present(idv);
        assert forall|k: int| 0 <= k < idv.len() implies (#[trigger] idv[k] matches Some(v) ==> v
            < 0x1_0000_0000) by {
            assert(idv[k] == damage[k].id);
        }
        assert forall|k: int| 0 <= k < damage.len() implies entry_id(#[trigger] damage[k])
            <= f1.dmg_id by {
            assert(idv[k] == damage[k].id);
        }
    } else {
        lemma_feed_run_baseline(id, f0, damage);
    }
    lemma_events_baseline(f1.evt_id, event_ids);
    assert(events_baseline(f1.evt_id, event_ids) == f1.evt_id);
    let g0 = FeedModel { evt_id: events_baseline(f1.evt_id, event_ids), ..f1 };
    assert(g0 =~= f1);
    lemma_feed_run_silent(id, f1, damage);
    assert((FeedModel { initialized: true, ..f1 }) =~= f1);
}

} // verus!
