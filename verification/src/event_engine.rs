//! Turns telemetry into game events: new entries of the `state` list and, for
//! ships, the player's HUD events.
use vstd::prelude::*;

use crate::pattern_engine::GameEvent;
use crate::text::{has_part, lowercase, str_contains, string_from_chars, chars_of, to_lowercase};
use crate::wt_telemetry::{HudEvent, HudEventView, VehicleType};

verus! {

/// What a `state` string stands for: a known event, or a custom one named by the string.
pub enum StateEventView {
    Known(GameEvent),
    Custom(Seq<char>),
}

/// The event named by a lower-cased `state` string, if it is a known one.
pub open spec fn known_state_event(l: Seq<char>) -> Option<GameEvent> {
    if has_part(l, "critical"@) && has_part(l, "hit"@) {
        Some(GameEvent::CriticalHit)
    } else if has_part(l, "hit"@) {
        Some(GameEvent::Hit)
    } else if has_part(l, "target"@) && has_part(l, "destroyed"@) {
        Some(GameEvent::TargetDestroyed)
    } else if has_part(l, "aircraft"@) && has_part(l, "destroyed"@) {
        Some(GameEvent::AircraftDestroyed)
    } else if has_part(l, "tank"@) && has_part(l, "destroyed"@) {
        Some(GameEvent::TankDestroyed)
    } else if has_part(l, "ship"@) && has_part(l, "destroyed"@) {
        Some(GameEvent::ShipDestroyed)
    } else if has_part(l, "destroyed"@) {
        Some(GameEvent::VehicleDestroyed)
    } else if has_part(l, "crew"@) && has_part(l, "knocked"@) {
        Some(GameEvent::CrewKnocked)
    } else if has_part(l, "mission"@) && has_part(l, "success"@) {
        Some(GameEvent::MissionSuccess)
    } else if has_part(l, "mission"@) && has_part(l, "failed"@) {
        Some(GameEvent::MissionFailed)
    } else if has_part(l, "objective"@) && has_part(l, "completed"@) {
        Some(GameEvent::MissionObjectiveCompleted)
    } else if has_part(l, "team"@) && has_part(l, "kill"@) {
        Some(GameEvent::TeamKill)
    } else if has_part(l, "assist"@) {
        Some(GameEvent::Assist)
    } else if has_part(l, "base"@) && has_part(l, "capture"@) {
        Some(GameEvent::BaseCapture)
    } else if has_part(l, "engine"@) && has_part(l, "overheat"@) {
        Some(GameEvent::EngineOverheat)
    } else if has_part(l, "oil"@) && has_part(l, "overheat"@) {
        Some(GameEvent::OilOverheated)
    } else if has_part(l, "shoot"@) || has_part(l, "firing"@) {
        Some(GameEvent::Shooting)
    } else {
        None
    }
}

/// A known state event is only read from a string that has its words: among
/// others, mission success needs "mission" and "success" and mission failure
/// needs "mission" and "failed". A string with "mission" and "success" and none
/// of the words looked for before them is a mission success.
pub proof fn law_state_event_words(l: Seq<char>)
    ensures
        known_state_event(l) == Some(GameEvent::MissionSuccess) ==> has_part(l, "mission"@) && has_part(
            l,
            "success"@,
        ),
        known_state_event(l) == Some(GameEvent::MissionFailed) ==> has_part(l, "mission"@) && has_part(
            l,
            "failed"@,
        ),
        known_state_event(l) == Some(GameEvent::CriticalHit) ==> has_part(l, "critical"@) && has_part(l, "hit"@),
        known_state_event(l) == Some(GameEvent::Hit) ==> has_part(l, "hit"@),
        known_state_event(l) == Some(GameEvent::TargetDestroyed) ==> has_part(l, "target"@) && has_part(
            l,
            "destroyed"@,
        ),
        known_state_event(l) == Some(GameEvent::CrewKnocked) ==> has_part(l, "crew"@) && has_part(l, "knocked"@),
        known_state_event(l) == Some(GameEvent::MissionObjectiveCompleted) ==> has_part(l, "objective"@)
            && has_part(l, "completed"@),
        known_state_event(l) == Some(GameEvent::Shooting) ==> has_part(l, "shoot"@) || has_part(l, "firing"@),
        known_state_event(l) == Some(GameEvent::AircraftDestroyed) ==> has_part(l, "aircraft"@) && has_part(
            l,
            "destroyed"@,
        ),
        known_state_event(l) == Some(GameEvent::TankDestroyed) ==> has_part(l, "tank"@) && has_part(
            l,
            "destroyed"@,
        ),
        known_state_event(l) == Some(GameEvent::ShipDestroyed) ==> has_part(l, "ship"@) && has_part(
            l,
            "destroyed"@,
        ),
        known_state_event(l) == Some(GameEvent::VehicleDestroyed) ==> has_part(l, "destroyed"@),
        known_state_event(l) == Some(GameEvent::TeamKill) ==> has_part(l, "team"@) && has_part(l, "kill"@),
        known_state_event(l) == Some(GameEvent::Assist) ==> has_part(l, "assist"@),
        known_state_event(l) == Some(GameEvent::BaseCapture) ==> has_part(l, "base"@) && has_part(l, "capture"@),
        known_state_event(l) == Some(GameEvent::EngineOverheat) ==> has_part(l, "engine"@) && has_part(
            l,
            "overheat"@,
        ),
        known_state_event(l) == Some(GameEvent::OilOverheated) ==> has_part(l, "oil"@) && has_part(
            l,
            "overheat"@,
        ),
        known_state_event(l) is None <==> !has_part(l, "hit"@) && !has_part(l, "destroyed"@) && !(has_part(
            l,
            "crew"@,
        ) && has_part(l, "knocked"@)) && !(has_part(l, "mission"@) && (has_part(l, "success"@) || has_part(
            l,
            "failed"@,
        ))) && !(has_part(l, "objective"@) && has_part(l, "completed"@)) && !(has_part(l, "team"@)
            && has_part(l, "kill"@)) && !has_part(l, "assist"@) && !(has_part(l, "base"@) && has_part(
            l,
            "capture"@,
        )) && !((has_part(l, "engine"@) || has_part(l, "oil"@)) && has_part(l, "overheat"@)) && !has_part(
            l,
            "shoot"@,
        ) && !has_part(l, "firing"@),
        !has_part(l, "hit"@) && !has_part(l, "destroyed"@) && !(has_part(l, "crew"@) && has_part(
            l,
            "knocked"@,
        )) && has_part(l, "mission"@) && has_part(l, "success"@) ==> known_state_event(l) == Some(
            GameEvent::MissionSuccess,
        ),
{
}

/// What a `state` string stands for: a known event by its lower-cased text, else a
/// custom event named by the string itself, unless it is empty.
pub open spec fn state_event(s: Seq<char>) -> Option<StateEventView> {
    match known_state_event(lowercase(s)) {
        Some(e) => Some(StateEventView::Known(e)),
        None => if s.len() > 0 {
            Some(StateEventView::Custom(s))
        } else {
            None
        },
    }
}

/// `e` is the event that `v` describes.
pub open spec fn event_matches(e: GameEvent, v: StateEventView) -> bool {
    match v {
        StateEventView::Known(g) => e == g,
        StateEventView::Custom(s) => e matches GameEvent::CustomTrigger(t) && t@ == s,
    }
}

/// `es` are the events that `vs` describe, one for one.
pub open spec fn events_match(es: Seq<GameEvent>, vs: Seq<StateEventView>) -> bool {
    &&& es.len() == vs.len()
    &&& forall|k: int| 0 <= k < es.len() ==> event_matches(#[trigger] es[k], vs[k])
}

/// The events that a list of `state` strings stands for, in order.
pub open spec fn state_events(ss: Seq<Seq<char>>) -> Seq<StateEventView>
    decreases ss.len(),
{
    if ss.len() == 0 {
        Seq::empty()
    } else {
        state_events(ss.drop_last()) + match state_event(ss.last()) {
            Some(v) => seq![v],
            None => Seq::empty(),
        }
    }
}

/// The strings of `cur` that `prev` does not hold, each once, in order of first
/// appearance (all of `cur`, each once, when there is no `prev`).
pub open spec fn fresh_states(prev: Option<Seq<Seq<char>>>, cur: Seq<Seq<char>>) -> Seq<Seq<char>>
    decreases cur.len(),
{
    if cur.len() == 0 {
        Seq::empty()
    } else {
        let r = fresh_states(prev, cur.drop_last());
        let x = cur.last();
        if cur.drop_last().contains(x) || (prev matches Some(p) && p.contains(x)) {
            r
        } else {
            r.push(x)
        }
    }
}

/// The game event that a HUD event of the player stands for.
pub open spec fn hud_game_event(ev: HudEventView) -> GameEvent {
    match ev {
        HudEventView::Kill(m) => {
            let l = lowercase(m);
            if has_part(l, "aircraft"@) || has_part(l, "shot down"@) {
                GameEvent::AircraftDestroyed
            } else if has_part(l, "ship"@) {
                GameEvent::ShipDestroyed
            } else if has_part(l, "tank"@) {
                GameEvent::TankDestroyed
            } else {
                GameEvent::TargetDestroyed
            }
        },
        HudEventView::SetAfire(_) => GameEvent::TargetSetOnFire,
        HudEventView::TakeDamage(_) => GameEvent::Hit,
        HudEventView::SeverelyDamaged(_) => GameEvent::TargetSeverelyDamaged,
        HudEventView::ShotDown(_) => GameEvent::AircraftDestroyed,
        HudEventView::Achievement(m) => {
            let l = lowercase(m);
            if has_part(l, "first strike"@) {
                GameEvent::FirstStrike
            } else if has_part(l, "rescuer"@) {
                GameEvent::ShipRescuer
            } else if has_part(l, "assist"@) {
                GameEvent::Assist
            } else {
                GameEvent::Achievement
            }
        },
        HudEventView::Crashed => GameEvent::Crashed,
        HudEventView::EngineOverheated => GameEvent::EngineOverheat,
        HudEventView::OilOverheated => GameEvent::OilOverheated,
        HudEventView::ChatMessage(_) => GameEvent::ChatMessage,
    }
}

/// The known event named by a lower-cased `state` string.
pub fn known_event_from_lowercase(l: &str) -> (r: Option<GameEvent>)
    ensures
        r == known_state_event(l@),
{
    let hit = str_contains(l, "hit");
    let destroyed = str_contains(l, "destroyed");
    let overheat = str_contains(l, "overheat");
    if str_contains(l, "critical") && hit {
        Some(GameEvent::CriticalHit)
    } else if hit {
        Some(GameEvent::Hit)
    } else if str_contains(l, "target") && destroyed {
        Some(GameEvent::TargetDestroyed)
    } else if str_contains(l, "aircraft") && destroyed {
        Some(GameEvent::AircraftDestroyed)
    } else if str_contains(l, "tank") && destroyed {
        Some(GameEvent::TankDestroyed)
    } else if str_contains(l, "ship") && destroyed {
        Some(GameEvent::ShipDestroyed)
    } else if destroyed {
        Some(GameEvent::VehicleDestroyed)
    } else if str_contains(l, "crew") && str_contains(l, "knocked") {
        Some(GameEvent::CrewKnocked)
    } else if str_contains(l, "mission") && str_contains(l, "success") {
        Some(GameEvent::MissionSuccess)
    } else if str_contains(l, "mission") && str_contains(l, "failed") {
        Some(GameEvent::MissionFailed)
    } else if str_contains(l, "objective") && str_contains(l, "completed") {
        Some(GameEvent::MissionObjectiveCompleted)
    } else if str_contains(l, "team") && str_contains(l, "kill") {
        Some(GameEvent::TeamKill)
    } else if str_contains(l, "assist") {
        Some(GameEvent::Assist)
    } else if str_contains(l, "base") && str_contains(l, "capture") {
        Some(GameEvent::BaseCapture)
    } else if str_contains(l, "engine") && overheat {
        Some(GameEvent::EngineOverheat)
    } else if str_contains(l, "oil") && overheat {
        Some(GameEvent::OilOverheated)
    } else if str_contains(l, "shoot") || str_contains(l, "firing") {
        Some(GameEvent::Shooting)
    } else {
        None
    }
}

/// Detects game events from successive telemetry frames.
pub struct EventEngine {
    previous_states: Option<Vec<String>>,
}

impl EventEngine {
    /// The `state` list of the last valid frame, if any.
    pub closed spec fn previous(&self) -> Option<Seq<Seq<char>>> {
        match self.previous_states {
            Some(v) => Some(v.deep_view()),
            None => None,
        }
    }

    /// An engine that has seen no frame.
    pub fn new() -> (r: EventEngine)
        ensures
            r.previous() is None,
    {
        EventEngine { previous_states: None }
    }

    /// Forgets the last frame (as when leaving a battle).
    pub fn reset(&mut self)
        ensures
            final(self).previous() is None,
    {
        self.previous_states = None;
    }

    /// The event that a `state` string stands for: a known one by its lower-cased
    /// text, else a custom event named by the string, unless it is empty.
    pub fn map_wt_state_to_event(state: &str) -> (r: Option<GameEvent>)
        ensures
            r matches Some(e) ==> state_event(state@) matches Some(v) && event_matches(e, v),
            r is None ==> state_event(state@) is None,
    {
        let lower = to_lowercase(state);
        match known_event_from_lowercase(lower.as_str()) {
            Some(e) => Some(e),
            None => {
                if state.unicode_len() > 0 {
                    Some(GameEvent::CustomTrigger(string_from_chars(&chars_of(state))))
                } else {
                    None
                }
            },
        }
    }

    /// The game event that a HUD event of the player stands for.
    pub fn map_hud_event_to_game_event(ev: &HudEvent) -> (r: GameEvent)
        ensures
            r == hud_game_event(ev.deep_view()),
    {
        match ev {
            HudEvent::Kill(m) => {
                let l = to_lowercase(m.as_str());
                let l = l.as_str();
                if str_contains(l, "aircraft") || str_contains(l, "shot down") {
                    GameEvent::AircraftDestroyed
                } else if str_contains(l, "ship") {
                    GameEvent::ShipDestroyed
                } else if str_contains(l, "tank") {
                    GameEvent::TankDestroyed
                } else {
                    GameEvent::TargetDestroyed
                }
            },
            HudEvent::SetAfire(_) => GameEvent::TargetSetOnFire,
            HudEvent::TakeDamage(_) => GameEvent::Hit,
            HudEvent::SeverelyDamaged(_) => GameEvent::TargetSeverelyDamaged,
            HudEvent::ShotDown(_) => GameEvent::AircraftDestroyed,
            HudEvent::Achievement(m) => {
                let l = to_lowercase(m.as_str());
                let l = l.as_str();
                if str_contains(l, "first strike") {
                    GameEvent::FirstStrike
                } else if str_contains(l, "rescuer") {
                    GameEvent::ShipRescuer
                } else if str_contains(l, "assist") {
                    GameEvent::Assist
                } else {
                    GameEvent::Achievement
                }
            },
            HudEvent::Crashed => GameEvent::Crashed,
            HudEvent::EngineOverheated => GameEvent::EngineOverheat,
            HudEvent::OilOverheated => GameEvent::OilOverheated,
            HudEvent::ChatMessage(_) => GameEvent::ChatMessage,
        }
    }

    /// Whether `v` holds a string with the characters of `s`.
    fn holds(v: &Vec<String>, s: &String) -> (r: bool)
        ensures
            r == v.deep_view().contains(s@),
    {
        let n = v.len();
        for i in 0..n
            invariant
                n == v@.len(),
                forall|j: int| 0 <= j < i ==> v.deep_view()[j] != s@,
        {
            if v[i] == *s {
                assert(v.deep_view()[i as int] == s@);
                return true;
            }
        }
        false
    }

    /// The strings of `cur` that `prev` does not hold, each once, in order.
    fn fresh(prev: &Option<Vec<String>>, cur: &Vec<String>) -> (r: Vec<String>)
        ensures
            r.deep_view() == fresh_states(
                match prev {
                    Some(v) => Some(v.deep_view()),
                    None => None,
                },
                cur.deep_view(),
            ),
    {
        let ghost pv = match prev {
            Some(v) => Some(v.deep_view()),
            None => None::<Seq<Seq<char>>>,
        };
        let ghost cv = cur.deep_view();
        let mut r: Vec<String> = Vec::new();
        let mut earlier: Vec<String> = Vec::new();
        let n = cur.len();
        for i in 0..n
            invariant
                n == cur@.len(),
                cv == cur.deep_view(),
                pv == (match prev {
                    Some(v) => Some(v.deep_view()),
                    None => None::<Seq<Seq<char>>>,
                }),
                earlier.deep_view() == cv.take(i as int),
                r.deep_view() == fresh_states(pv, cv.take(i as int)),
        {
            let x = &cur[i];
            assert(cv.take(i + 1).drop_last() =~= cv.take(i as int));
            assert(cv.take(i + 1).last() == x@);
            let seen_before = Self::holds(&earlier, x);
            let in_prev = match prev {
                Some(p) => Self::holds(p, x),
                None => false,
            };
            if !seen_before && !in_prev {
                let ghost before = r.deep_view();
                r.push(x.clone());
                assert(r.deep_view() =~= before.push(x@));
            }
            let ghost e0 = earlier.deep_view();
            earlier.push(x.clone());
            assert(earlier.deep_view() =~= e0.push(x@));
            assert(earlier.deep_view() =~= cv.take(i + 1));
        }
        assert(cv.take(n as int) =~= cv);
        r
    }

    /// The events of a telemetry frame.
    ///
    /// Nothing is detected in an invalid frame, and it is not remembered. For a
    /// ship, the events are those of its HUD events; otherwise they are those of
    /// the `state` strings that the previous valid frame did not hold. The frame's
    /// `state` list is remembered either way.
    pub fn detect_events(
        &mut self,
        valid: bool,
        vehicle: VehicleType,
        hud_events: &Vec<HudEvent>,
        states: &Vec<String>,
    ) -> (r: Vec<GameEvent>)
        ensures
            !valid ==> r@.len() == 0 && final(self).previous() == old(self).previous(),
            valid ==> final(self).previous() == Some(states.deep_view()),
            valid && vehicle == VehicleType::Ship ==> r@ == hud_events.deep_view().map_values(
                |e: HudEventView| hud_game_event(e),
            ),
            valid && vehicle != VehicleType::Ship ==> events_match(
                r@,
                state_events(fresh_states(old(self).previous(), states.deep_view())),
            ),
    {
        let mut events: Vec<GameEvent> = Vec::new();
        if !valid {
            return events;
        }
        if vehicle == VehicleType::Ship {
            let ghost hv = hud_events.deep_view();
            let n = hud_events.len();
            for i in 0..n
                invariant
                    n == hud_events@.len(),
                    hv == hud_events.deep_view(),
                    events@ == hv.take(i as int).map_values(|e: HudEventView| hud_game_event(e)),
            {
                events.push(Self::map_hud_event_to_game_event(&hud_events[i]));
                assert(events@ =~= hv.take(i + 1).map_values(|e: HudEventView| hud_game_event(e)));
            }
            assert(hv.take(n as int) =~= hv);
        } else {
            let fresh = Self::fresh(&self.previous_states, states);
            let ghost fv = fresh.deep_view();
            let n = fresh.len();
            for i in 0..n
                invariant
                    n == fresh@.len(),
                    fv == fresh.deep_view(),
                    events_match(events@, state_events(fv.take(i as int))),
            {
                assert(fv.take(i + 1).drop_last() =~= fv.take(i as int));
                assert(fv.take(i + 1).last() == fresh@[i as int]@);
                let ghost before = events@;
                if let Some(e) = Self::map_wt_state_to_event(fresh[i].as_str()) {
                    events.push(e);
                    assert(events@ == before.push(e));
                }
                assert forall|k: int| 0 <= k < events@.len() implies event_matches(
                    #[trigger] events@[k],
                    state_events(fv.take(i + 1))[k],
                ) by {
                    if k < before.len() {
                        assert(events@[k] == before[k]);
                    }
                }
            }
            assert(fv.take(n as int) =~= fv);
        }
        self.previous_states = Some(copy_strings(states));
        events
    }
}

/// Copies of the given strings.
fn copy_strings(v: &Vec<String>) -> (r: Vec<String>)
    ensures
        r.deep_view() == v.deep_view(),
{
    crate::wt_telemetry::copy_strings(v)
}

} // verus!

verus! {

/// The fresh states are exactly the states of the frame that the previous frame
/// did not hold, each listed once: the set difference of the two frames.
pub proof fn law_fresh_states_are_the_difference(prev: Option<Seq<Seq<char>>>, cur: Seq<Seq<char>>)
    ensures
        forall|x: Seq<char>|
            #[trigger] fresh_states(prev, cur).contains(x) <==> (cur.contains(x) && !(prev matches Some(
                p,
            ) && p.contains(x))),
        forall|i: int, j: int|
            0 <= i < j < fresh_states(prev, cur).len() ==> fresh_states(prev, cur)[i]
                != fresh_states(prev, cur)[j],
    decreases cur.len(),
{
    if cur.len() > 0 {
        let c0 = cur.drop_last();
        let x = cur.last();
        law_fresh_states_are_the_difference(prev, c0);
        let r = fresh_states(prev, c0);
        assert forall|y: Seq<char>| cur.contains(y) <==> (c0.contains(y) || y == x) by {
            if cur.contains(y) {
                let k = choose|k: int| 0 <= k < cur.len() && cur[k] == y;
                if k < cur.len() - 1 {
                    assert(c0[k] == y);
                }
            }
            if c0.contains(y) {
                let k = choose|k: int| 0 <= k < c0.len() && c0[k] == y;
                assert(cur[k] == y);
            }
            if y == x {
                assert(cur[cur.len() - 1] == y);
            }
        }
        if !(c0.contains(x) || (prev matches Some(p) && p.contains(x))) {
            let f = r.push(x);
            assert(fresh_states(prev, cur) == f);
            assert forall|y: Seq<char>| f.contains(y) <==> (r.contains(y) || y == x) by {
                if f.contains(y) {
                    let k = choose|k: int| 0 <= k < f.len() && f[k] == y;
                    if k < r.len() {
                        assert(r[k] == y);
                    }
                }
                if r.contains(y) {
                    let k = choose|k: int| 0 <= k < r.len() && r[k] == y;
                    assert(f[k] == y);
                }
                if y == x {
                    assert(f[f.len() - 1] == y);
                }
            }
            assert forall|i: int, j: int| 0 <= i < j < f.len() implies f[i] != f[j] by {
                if j == f.len() - 1 {
                    assert(r.contains(r[i]));
                }
            }
        }
    }
}

/// Detecting the same frame twice reports nothing the second time: a state is
/// reported only when it appears.
pub proof fn law_same_frame_twice_is_silent(cur: Seq<Seq<char>>)
    ensures
        fresh_states(Some(cur), cur).len() == 0,
        state_events(fresh_states(Some(cur), cur)).len() == 0,
{
    law_fresh_states_are_the_difference(Some(cur), cur);
    if fresh_states(Some(cur), cur).len() > 0 {
        assert(fresh_states(Some(cur), cur).contains(fresh_states(Some(cur), cur)[0]));
    }
    assert(fresh_states(Some(cur), cur) =~= Seq::<Seq<char>>::empty());
}

} // verus!
