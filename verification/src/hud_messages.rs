//! The HUD message feed (`/hudmsg`): which game event a message announces, and
//! which messages are new since the last poll.
use vstd::prelude::*;

use crate::pattern_engine::GameEvent;
use crate::text::{has_part, lowercase, str_contains, to_lowercase};

verus! {

/// One HUD message.
#[derive(Debug)]
pub struct HudMessage {
    pub id: u32,
    pub msg: String,
    pub sender: String,
    pub enemy: bool,
    pub mode: String,
    pub time: u32,
}

impl HudMessage {
    /// A field-by-field copy.
    pub fn copy(&self) -> (r: HudMessage)
        ensures
            r == *self,
    {
        HudMessage {
            id: self.id,
            msg: self.msg.clone(),
            sender: self.sender.clone(),
            enemy: self.enemy,
            mode: self.mode.clone(),
            time: self.time,
        }
    }
}

/// The two HUD message lists that one poll returns.
#[derive(Debug)]
pub struct HudMessages {
    pub events: Vec<HudMessage>,
    pub damage: Vec<HudMessage>,
}

/// The event that a lower-cased HUD message announces, by the first rule that matches.
pub open spec fn hud_text_event(l: Seq<char>) -> Option<GameEvent> {
    if has_part(l, "destroyed"@) && !has_part(l, "has been"@) {
        Some(GameEvent::TargetDestroyed)
    } else if has_part(l, "set afire"@) || has_part(l, "set on fire"@) {
        Some(GameEvent::TargetSetOnFire)
    } else if has_part(l, "critically damaged"@) {
        Some(GameEvent::TargetCritical)
    } else if has_part(l, "severely damaged"@) {
        Some(GameEvent::TargetSeverelyDamaged)
    } else if has_part(l, "shot down"@) {
        Some(GameEvent::AircraftDestroyed)
    } else if has_part(l, "has been wrecked"@) || has_part(l, "has crashed"@) {
        Some(GameEvent::VehicleDestroyed)
    } else if has_part(l, "first strike"@) || has_part(l, "delivered the first strike"@) {
        Some(GameEvent::FirstStrike)
    } else if has_part(l, "ship rescuer"@) {
        Some(GameEvent::ShipRescuer)
    } else if has_part(l, "assist"@) {
        Some(GameEvent::Assist)
    } else if has_part(l, "base capturer"@) || has_part(l, "base defender"@) {
        Some(GameEvent::BaseCapture)
    } else if has_part(l, "team kill"@) || has_part(l, "teamkill"@) {
        Some(GameEvent::TeamKill)
    } else if has_part(l, "has achieved"@) {
        Some(GameEvent::Achievement)
    } else if has_part(l, "disconnected from the game"@) {
        Some(GameEvent::PlayerDisconnected)
    } else if has_part(l, "engine overheated"@) || has_part(l, "water overheated"@) {
        Some(GameEvent::EngineOverheat)
    } else if has_part(l, "oil overheated"@) {
        Some(GameEvent::OilOverheated)
    } else {
        None
    }
}

/// A HUD message announces an event exactly when it has one of the phrases
/// looked for, and each event only on its phrases: a shot-down aircraft on
/// "shot down", which announces it whenever no phrase looked for before it
/// (destroyed, set afire, set on fire, critically or severely damaged) occurs.
pub proof fn law_hud_text_phrases(l: Seq<char>)
    ensures
        hud_text_event(l) == Some(GameEvent::AircraftDestroyed) ==> has_part(l, "shot down"@),
        hud_text_event(l) == Some(GameEvent::TargetDestroyed) ==> has_part(l, "destroyed"@),
        hud_text_event(l) == Some(GameEvent::TargetSetOnFire) ==> has_part(l, "set afire"@) || has_part(
            l,
            "set on fire"@,
        ),
        hud_text_event(l) == Some(GameEvent::TargetCritical) ==> has_part(l, "critically damaged"@),
        hud_text_event(l) == Some(GameEvent::TargetSeverelyDamaged) ==> has_part(l, "severely damaged"@),
        hud_text_event(l) == Some(GameEvent::VehicleDestroyed) ==> has_part(l, "has been wrecked"@) || has_part(
            l,
            "has crashed"@,
        ),
        hud_text_event(l) == Some(GameEvent::FirstStrike) ==> has_part(l, "first strike"@) || has_part(
            l,
            "delivered the first strike"@,
        ),
        hud_text_event(l) == Some(GameEvent::ShipRescuer) ==> has_part(l, "ship rescuer"@),
        hud_text_event(l) == Some(GameEvent::Assist) ==> has_part(l, "assist"@),
        hud_text_event(l) == Some(GameEvent::BaseCapture) ==> has_part(l, "base capturer"@) || has_part(
            l,
            "base defender"@,
        ),
        hud_text_event(l) == Some(GameEvent::TeamKill) ==> has_part(l, "team kill"@) || has_part(l, "teamkill"@),
        hud_text_event(l) == Some(GameEvent::Achievement) ==> has_part(l, "has achieved"@),
        hud_text_event(l) == Some(GameEvent::PlayerDisconnected) ==> has_part(l, "disconnected from the game"@),
        hud_text_event(l) == Some(GameEvent::EngineOverheat) ==> has_part(l, "engine overheated"@) || has_part(
            l,
            "water overheated"@,
        ),
        hud_text_event(l) == Some(GameEvent::OilOverheated) ==> has_part(l, "oil overheated"@),
        !has_part(l, "destroyed"@) && !has_part(l, "set afire"@) && !has_part(l, "set on fire"@) && !has_part(
            l,
            "critically damaged"@,
        ) && !has_part(l, "severely damaged"@) && has_part(l, "shot down"@) ==> hud_text_event(l) == Some(
            GameEvent::AircraftDestroyed,
        ),
        hud_text_event(l) is None <==> !(has_part(l, "destroyed"@) && !has_part(l, "has been"@)) && !has_part(
            l,
            "set afire"@,
        ) && !has_part(l, "set on fire"@) && !has_part(l, "critically damaged"@) && !has_part(
            l,
            "severely damaged"@,
        ) && !has_part(l, "shot down"@) && !has_part(l, "has been wrecked"@) && !has_part(l, "has crashed"@)
            && !has_part(l, "first strike"@) && !has_part(l, "delivered the first strike"@) && !has_part(
            l,
            "ship rescuer"@,
        ) && !has_part(l, "assist"@) && !has_part(l, "base capturer"@) && !has_part(l, "base defender"@)
            && !has_part(l, "team kill"@) && !has_part(l, "teamkill"@) && !has_part(l, "has achieved"@)
            && !has_part(l, "disconnected from the game"@) && !has_part(l, "engine overheated"@) && !has_part(
            l,
            "water overheated"@,
        ) && !has_part(l, "oil overheated"@),
{
}

/// The event that a HUD message announces.
pub open spec fn message_event(msg: Seq<char>) -> Option<GameEvent> {
    hud_text_event(lowercase(msg))
}

/// The events announced by a list of messages, in order.
pub open spec fn messages_events(msgs: Seq<HudMessage>) -> Seq<GameEvent>
    decreases msgs.len(),
{
    if msgs.len() == 0 {
        Seq::empty()
    } else {
        messages_events(msgs.drop_last()) + match message_event(msgs.last().msg@) {
            Some(e) => seq![e],
            None => Seq::empty(),
        }
    }
}

/// The messages of `msgs` whose id is greater than `last_id`, in order.
pub open spec fn newer_than(msgs: Seq<HudMessage>, last_id: u32) -> Seq<HudMessage> {
    msgs.filter(|m: HudMessage| m.id > last_id)
}

/// Copies of the messages of `msgs` with an id greater than `last_id`.
pub fn messages_after(msgs: &Vec<HudMessage>, last_id: u32) -> (r: Vec<HudMessage>)
    ensures
        r@ == newer_than(msgs@, last_id),
{
    let mut r: Vec<HudMessage> = Vec::new();
    let n = msgs.len();
    for i in 0..n
        invariant
            n == msgs@.len(),
            r@ == msgs@.take(i as int).filter(|m: HudMessage| m.id > last_id),
    {
        proof {
            reveal_with_fuel(Seq::<_>::filter, 1);
        }
        if msgs[i].id > last_id {
            r.push(msgs[i].copy());
        }
        assert(msgs@.take(i + 1).drop_last() =~= msgs@.take(i as int));
    }
    assert(msgs@.take(n as int) =~= msgs@);
    r
}

impl HudMessages {
    /// The game event that a lower-cased HUD message announces.
    pub fn event_from_lowercase(l: &str) -> (r: Option<GameEvent>)
        ensures
            r == hud_text_event(l@),
    {
        if str_contains(l, "destroyed") && !str_contains(l, "has been") {
            return Some(GameEvent::TargetDestroyed);
        }
        if str_contains(l, "set afire") || str_contains(l, "set on fire") {
            return Some(GameEvent::TargetSetOnFire);
        }
        if str_contains(l, "critically damaged") {
            return Some(GameEvent::TargetCritical);
        }
        if str_contains(l, "severely damaged") {
            return Some(GameEvent::TargetSeverelyDamaged);
        }
        if str_contains(l, "shot down") {
            return Some(GameEvent::AircraftDestroyed);
        }
        if str_contains(l, "has been wrecked") || str_contains(l, "has crashed") {
            return Some(GameEvent::VehicleDestroyed);
        }
        if str_contains(l, "first strike") || str_contains(l, "delivered the first strike") {
            return Some(GameEvent::FirstStrike);
        }
        if str_contains(l, "ship rescuer") {
            return Some(GameEvent::ShipRescuer);
        }
        if str_contains(l, "assist") {
            return Some(GameEvent::Assist);
        }
        if str_contains(l, "base capturer") || str_contains(l, "base defender") {
            return Some(GameEvent::BaseCapture);
        }
        if str_contains(l, "team kill") || str_contains(l, "teamkill") {
            return Some(GameEvent::TeamKill);
        }
        if str_contains(l, "has achieved") {
            return Some(GameEvent::Achievement);
        }
        if str_contains(l, "disconnected from the game") {
            return Some(GameEvent::PlayerDisconnected);
        }
        if str_contains(l, "engine overheated") || str_contains(l, "water overheated") {
            return Some(GameEvent::EngineOverheat);
        }
        if str_contains(l, "oil overheated") {
            return Some(GameEvent::OilOverheated);
        }
        None
    }

    /// The game event that a HUD message announces, matched case-insensitively.
    pub fn parse_event(msg: &str) -> (r: Option<GameEvent>)
        ensures
            r == message_event(msg@),
    {
        let lower = to_lowercase(msg);
        Self::event_from_lowercase(lower.as_str())
    }

    /// The event and damage messages newer than the given ids.
    pub fn get_new_messages(&self, last_event_id: u32, last_damage_id: u32) -> (r: (
        Vec<HudMessage>,
        Vec<HudMessage>,
    ))
        ensures
            r.0@ == newer_than(self.events@, last_event_id),
            r.1@ == newer_than(self.damage@, last_damage_id),
    {
        (messages_after(&self.events, last_event_id), messages_after(&self.damage, last_damage_id))
    }

    /// The events announced by the event messages, then by the damage messages.
    pub fn extract_events(&self) -> (r: Vec<GameEvent>)
        ensures
            r@ == messages_events(self.events@) + messages_events(self.damage@),
    {
        let mut events: Vec<GameEvent> = Vec::new();
        let n = self.events.len();
        for i in 0..n
            invariant
                n == self.events@.len(),
                events@ == messages_events(self.events@.take(i as int)),
        {
            assert(self.events@.take(i + 1).drop_last() =~= self.events@.take(i as int));
            if let Some(event) = Self::parse_event(self.events[i].msg.as_str()) {
                events.push(event);
            }
        }
        assert(self.events@.take(n as int) =~= self.events@);
        let ghost first = events@;
        let m = self.damage.len();
        for i in 0..m
            invariant
                m == self.damage@.len(),
                first == messages_events(self.events@),
                events@ == first + messages_events(self.damage@.take(i as int)),
        {
            assert(self.damage@.take(i + 1).drop_last() =~= self.damage@.take(i as int));
            if let Some(event) = Self::parse_event(self.damage[i].msg.as_str()) {
                events.push(event);
            }
            assert(events@ =~= first + messages_events(self.damage@.take(i + 1)));
        }
        assert(self.damage@.take(m as int) =~= self.damage@);
        events
    }
}

} // verus!
