//! The decisions of the main loop: which event-based triggers answer the HUD
//! events of a poll, the log of the latest trigger firings, whether the vehicle
//! changed, and what the state of the game connection calls for.
use vstd::prelude::*;

use std::collections::VecDeque;

use crate::event_triggers::{filter_passes, opt_chars, should_fire_event_trigger, EventTrigger};
use crate::pattern_engine::GameEvent;
use crate::wt_telemetry::{str_eq, HudEvent, HudEventView};

verus! {

/// One firing of an event-based trigger, as the debug console shows it.
pub struct TriggerEvent {
    pub trigger_name: String,
    pub event_type: String,
    pub entity: String,
    pub timestamp: String,
}

/// A `TriggerEvent` with its texts as character sequences.
pub struct TriggerEventView {
    pub trigger_name: Seq<char>,
    pub event_type: Seq<char>,
    pub entity: Seq<char>,
    pub timestamp: Seq<char>,
}

impl View for TriggerEvent {
    type V = TriggerEventView;

    open spec fn view(&self) -> TriggerEventView {
        TriggerEventView {
            trigger_name: self.trigger_name@,
            event_type: self.event_type@,
            entity: self.entity@,
            timestamp: self.timestamp@,
        }
    }
}

impl TriggerEvent {
    /// A copy with the same texts.
    pub fn copy(&self) -> (r: TriggerEvent)
        ensures
            r@ == self@,
    {
        TriggerEvent {
            trigger_name: self.trigger_name.clone(),
            event_type: self.event_type.clone(),
            entity: self.entity.clone(),
            timestamp: self.timestamp.clone(),
        }
    }
}

/// The entity a HUD event names: the victim of a kill or set-afire, the attacker
/// of a hit, the achievement, the chat text; nothing for the player's own mishaps.
pub open spec fn hud_entity(ev: HudEventView) -> Seq<char> {
    match ev {
        HudEventView::Kill(s) => s,
        HudEventView::Crashed => Seq::empty(),
        HudEventView::EngineOverheated => Seq::empty(),
        HudEventView::OilOverheated => Seq::empty(),
        HudEventView::SetAfire(s) => s,
        HudEventView::TakeDamage(s) => s,
        HudEventView::SeverelyDamaged(s) => s,
        HudEventView::ShotDown(s) => s,
        HudEventView::Achievement(s) => s,
        HudEventView::ChatMessage(s) => s,
    }
}

/// The event that event-based triggers answer for a HUD event.
pub open spec fn hud_trigger_event(ev: HudEventView) -> GameEvent {
    match ev {
        HudEventView::Kill(_) => GameEvent::TargetDestroyed,
        HudEventView::Crashed => GameEvent::Crashed,
        HudEventView::EngineOverheated => GameEvent::EngineOverheat,
        HudEventView::OilOverheated => GameEvent::OilOverheated,
        HudEventView::SetAfire(_) => GameEvent::EnemySetAfire,
        HudEventView::TakeDamage(_) => GameEvent::TakingDamage,
        HudEventView::SeverelyDamaged(_) => GameEvent::SeverelyDamaged,
        HudEventView::ShotDown(_) => GameEvent::ShotDown,
        HudEventView::Achievement(_) => GameEvent::Achievement,
        HudEventView::ChatMessage(_) => GameEvent::ChatMessage,
    }
}

/// The name of `hud_trigger_event(ev)`, as the debug console shows it.
pub open spec fn hud_event_type_name(ev: HudEventView) -> Seq<char> {
    match ev {
        HudEventView::Kill(_) => "TargetDestroyed"@,
        HudEventView::Crashed => "Crashed"@,
        HudEventView::EngineOverheated => "EngineOverheat"@,
        HudEventView::OilOverheated => "OilOverheated"@,
        HudEventView::SetAfire(_) => "EnemySetAfire"@,
        HudEventView::TakeDamage(_) => "TakingDamage"@,
        HudEventView::SeverelyDamaged(_) => "SeverelyDamaged"@,
        HudEventView::ShotDown(_) => "ShotDown"@,
        HudEventView::Achievement(_) => "Achievement"@,
        HudEventView::ChatMessage(_) => "ChatMessage"@,
    }
}

/// The entity a HUD event names and the event that triggers answer for it.
pub fn hud_event_target(ev: &HudEvent) -> (r: (String, GameEvent))
    ensures
        r.0@ == hud_entity(ev.deep_view()),
        r.1 == hud_trigger_event(ev.deep_view()),
{
    match ev {
        HudEvent::Kill(s) => (s.clone(), GameEvent::TargetDestroyed),
        HudEvent::Crashed => (String::new(), GameEvent::Crashed),
        HudEvent::EngineOverheated => (String::new(), GameEvent::EngineOverheat),
        HudEvent::OilOverheated => (String::new(), GameEvent::OilOverheated),
        HudEvent::SetAfire(s) => (s.clone(), GameEvent::EnemySetAfire),
        HudEvent::TakeDamage(s) => (s.clone(), GameEvent::TakingDamage),
        HudEvent::SeverelyDamaged(s) => (s.clone(), GameEvent::SeverelyDamaged),
        HudEvent::ShotDown(s) => (s.clone(), GameEvent::ShotDown),
        HudEvent::Achievement(s) => (s.clone(), GameEvent::Achievement),
        HudEvent::ChatMessage(s) => (s.clone(), GameEvent::ChatMessage),
    }
}

/// The name of the event that triggers answer for a HUD event.
pub fn hud_event_type(ev: &HudEvent) -> (r: String)
    ensures
        r@ == hud_event_type_name(ev.deep_view()),
{
    match ev {
        HudEvent::Kill(_) => String::from_str("TargetDestroyed"),
        HudEvent::Crashed => String::from_str("Crashed"),
        HudEvent::EngineOverheated => String::from_str("EngineOverheat"),
        HudEvent::OilOverheated => String::from_str("OilOverheated"),
        HudEvent::SetAfire(_) => String::from_str("EnemySetAfire"),
        HudEvent::TakeDamage(_) => String::from_str("TakingDamage"),
        HudEvent::SeverelyDamaged(_) => String::from_str("SeverelyDamaged"),
        HudEvent::ShotDown(_) => String::from_str("ShotDown"),
        HudEvent::Achievement(_) => String::from_str("Achievement"),
        HudEvent::ChatMessage(_) => String::from_str("ChatMessage"),
    }
}

/// Whether `e` is the event that triggers answer for the HUD event `ev`.
fn answers(e: &GameEvent, ev: &HudEvent) -> (r: bool)
    ensures
        r == (*e == hud_trigger_event(ev.deep_view())),
{
    match ev {
        HudEvent::Kill(_) => matches!(e, GameEvent::TargetDestroyed),
        HudEvent::Crashed => matches!(e, GameEvent::Crashed),
        HudEvent::EngineOverheated => matches!(e, GameEvent::EngineOverheat),
        HudEvent::OilOverheated => matches!(e, GameEvent::OilOverheated),
        HudEvent::SetAfire(_) => matches!(e, GameEvent::EnemySetAfire),
        HudEvent::TakeDamage(_) => matches!(e, GameEvent::TakingDamage),
        HudEvent::SeverelyDamaged(_) => matches!(e, GameEvent::SeverelyDamaged),
        HudEvent::ShotDown(_) => matches!(e, GameEvent::ShotDown),
        HudEvent::Achievement(_) => matches!(e, GameEvent::Achievement),
        HudEvent::ChatMessage(_) => matches!(e, GameEvent::ChatMessage),
    }
}

/// Whether an event-based trigger answers a HUD event: it is on, it is for that
/// event, and its filter lets the event's entity through.
pub open spec fn trigger_answers<C, P, K>(
    t: EventTrigger<C, P, K>,
    ev: HudEventView,
    player_names: Seq<Seq<char>>,
    clan_tags: Seq<Seq<char>>,
    enemy_names: Seq<Seq<char>>,
    enemy_clans: Seq<Seq<char>>,
) -> bool {
    &&& t.enabled
    &&& t.is_event_based
    &&& t.event == hud_trigger_event(ev)
    &&& filter_passes(
        t.event,
        opt_chars(t.filter_type),
        opt_chars(t.filter_text),
        hud_entity(ev),
        player_names,
        clan_tags,
        enemy_names,
        enemy_clans,
    )
}

/// The positions among the first `n` triggers of those that answer `ev`, in order.
pub open spec fn answering<C, P, K>(
    ts: Seq<EventTrigger<C, P, K>>,
    ev: HudEventView,
    player_names: Seq<Seq<char>>,
    clan_tags: Seq<Seq<char>>,
    enemy_names: Seq<Seq<char>>,
    enemy_clans: Seq<Seq<char>>,
    n: int,
) -> Seq<int>
    decreases n,
{
    if n <= 0 {
        Seq::empty()
    } else {
        let before = answering(ts, ev, player_names, clan_tags, enemy_names, enemy_clans, n - 1);
        if trigger_answers(ts[n - 1], ev, player_names, clan_tags, enemy_names, enemy_clans) {
            before.push(n - 1)
        } else {
            before
        }
    }
}

/// The (HUD event, trigger) pairs that match, for the first `m` HUD events:
/// event by event, and for each event trigger by trigger.
pub open spec fn matches_upto<C, P, K>(
    evs: Seq<HudEventView>,
    ts: Seq<EventTrigger<C, P, K>>,
    player_names: Seq<Seq<char>>,
    clan_tags: Seq<Seq<char>>,
    enemy_names: Seq<Seq<char>>,
    enemy_clans: Seq<Seq<char>>,
    m: int,
) -> Seq<(int, int)>
    decreases m,
{
    if m <= 0 {
        Seq::empty()
    } else {
        matches_upto(evs, ts, player_names, clan_tags, enemy_names, enemy_clans, m - 1) + answering(
            ts,
            evs[m - 1],
            player_names,
            clan_tags,
            enemy_names,
            enemy_clans,
            ts.len() as int,
        ).map_values(|j: int| (m - 1, j))
    }
}

/// For each HUD event of a poll, in order, the triggers that answer it, in order:
/// the pairs (position of the HUD event, position of the trigger).
pub fn match_event_triggers<C, P, K>(
    hud_events: &Vec<HudEvent>,
    triggers: &Vec<EventTrigger<C, P, K>>,
    player_names: &Vec<String>,
    clan_tags: &Vec<String>,
    enemy_names: &Vec<String>,
    enemy_clans: &Vec<String>,
) -> (r: Vec<(usize, usize)>)
    ensures
        r@.map_values(|p: (usize, usize)| (p.0 as int, p.1 as int)) == matches_upto(
            hud_events.deep_view(),
            triggers@,
            player_names.deep_view(),
            clan_tags.deep_view(),
            enemy_names.deep_view(),
            enemy_clans.deep_view(),
            hud_events.len() as int,
        ),
{
    let ghost evs = hud_events.deep_view();
    let ghost pn = player_names.deep_view();
    let ghost ct = clan_tags.deep_view();
    let ghost en = enemy_names.deep_view();
    let ghost ec = enemy_clans.deep_view();
    let mut r: Vec<(usize, usize)> = Vec::new();
    let m = hud_events.len();
    let n = triggers.len();
    for a in 0..m
        invariant
            m == hud_events.len(),
            n == triggers.len(),
            evs == hud_events.deep_view(),
            pn == player_names.deep_view(),
            ct == clan_tags.deep_view(),
            en == enemy_names.deep_view(),
            ec == enemy_clans.deep_view(),
            r@.map_values(|p: (usize, usize)| (p.0 as int, p.1 as int)) == matches_upto(
                evs,
                triggers@,
                pn,
                ct,
                en,
                ec,
                a as int,
            ),
    {
        let ev = &hud_events[a];
        let ghost evv = evs[a as int];
        assert(ev.deep_view() == evv);
        let (entity, _) = hud_event_target(ev);
        let ghost r0 = r@.map_values(|p: (usize, usize)| (p.0 as int, p.1 as int));
        for b in 0..n
            invariant
                m == hud_events.len(),
                n == triggers.len(),
                a < m,
                ev.deep_view() == evv,
                pn == player_names.deep_view(),
                ct == clan_tags.deep_view(),
                en == enemy_names.deep_view(),
                ec == enemy_clans.deep_view(),
                entity@ == hud_entity(evv),
                r@.map_values(|p: (usize, usize)| (p.0 as int, p.1 as int)) == r0 + answering(
                    triggers@,
                    evv,
                    pn,
                    ct,
                    en,
                    ec,
                    b as int,
                ).map_values(|j: int| (a as int, j)),
        {
            let t = &triggers[b];
            let ghost before = r@.map_values(|p: (usize, usize)| (p.0 as int, p.1 as int));
            let hit = t.enabled && t.is_event_based && answers(&t.event, ev)
                && should_fire_event_trigger(
                t,
                entity.as_str(),
                player_names,
                clan_tags,
                enemy_names,
                enemy_clans,
            );
            assert(hit == trigger_answers(triggers@[b as int], evv, pn, ct, en, ec));
            let ghost prev = answering(triggers@, evv, pn, ct, en, ec, b as int);
            if hit {
                r.push((a, b));
                assert(answering(triggers@, evv, pn, ct, en, ec, b + 1) == prev.push(b as int));
                assert(prev.push(b as int).map_values(|j: int| (a as int, j)) =~= prev.map_values(
                    |j: int| (a as int, j),
                ).push((a as int, b as int)));
                assert(r@.map_values(|p: (usize, usize)| (p.0 as int, p.1 as int)) =~= before.push(
                    (a as int, b as int),
                ));
            } else {
                assert(answering(triggers@, evv, pn, ct, en, ec, b + 1) == prev);
            }
        }
        assert(r0 == matches_upto(evs, triggers@, pn, ct, en, ec, a as int));
    }
    r
}

/// How many trigger firings the debug console keeps.
pub const RECENT_EVENTS_LIMIT: usize = 10;

/// The log after `e` is recorded: the oldest entry goes when the log is full.
pub open spec fn recorded(log: Seq<TriggerEventView>, e: TriggerEventView) -> Seq<TriggerEventView> {
    if log.len() >= RECENT_EVENTS_LIMIT {
        log.drop_first().push(e)
    } else {
        log.push(e)
    }
}

/// The log after each of `es` is recorded in turn, from `log`.
pub open spec fn recorded_all(log: Seq<TriggerEventView>, es: Seq<TriggerEventView>) -> Seq<
    TriggerEventView,
>
    decreases es.len(),
{
    if es.len() == 0 {
        log
    } else {
        recorded(recorded_all(log, es.drop_last()), es.last())
    }
}

/// The latest trigger firings, oldest first, at most `RECENT_EVENTS_LIMIT` of them.
pub struct RecentTriggerEvents {
    events: VecDeque<TriggerEvent>,
}

impl View for RecentTriggerEvents {
    type V = Seq<TriggerEventView>;

    closed spec fn view(&self) -> Seq<TriggerEventView> {
        self.events@.map_values(|e: TriggerEvent| e@)
    }
}

impl RecentTriggerEvents {
    /// The log holds no more entries than its limit.
    pub open spec fn wf(&self) -> bool {
        self@.len() <= RECENT_EVENTS_LIMIT
    }

    /// An empty log.
    pub fn new() -> (r: Self)
        ensures
            r.wf(),
            r@ == Seq::<TriggerEventView>::empty(),
    {
        let r = RecentTriggerEvents { events: VecDeque::with_capacity(RECENT_EVENTS_LIMIT) };
        assert(r@ =~= Seq::<TriggerEventView>::empty());
        r
    }

    /// Records a firing, dropping the oldest entry when the log is full.
    pub fn record(&mut self, e: TriggerEvent)
        requires
            old(self).wf(),
        ensures
            final(self).wf(),
            final(self)@ == recorded(old(self)@, e@),
    {
        let ghost s0 = self.events@;
        if self.events.len() >= RECENT_EVENTS_LIMIT {
            self.events.pop_front();
            assert(self.events@ =~= s0.drop_first());
        }
        let ghost s1 = self.events@;
        let ghost ev = e@;
        self.events.push_back(e);
        assert(self.events@ =~= s1.push(e));
        proof {
            if s0.len() >= RECENT_EVENTS_LIMIT {
                assert(self@ =~= s0.map_values(|x: TriggerEvent| x@).drop_first().push(ev));
            } else {
                assert(self@ =~= s0.map_values(|x: TriggerEvent| x@).push(ev));
            }
        }
    }

    /// Copies of the entries, oldest first.
    pub fn get_recent_trigger_events(&self) -> (r: Vec<TriggerEvent>)
        ensures
            r@.map_values(|e: TriggerEvent| e@) == self@,
    {
        let mut r: Vec<TriggerEvent> = Vec::new();
        let n = self.events.len();
        for i in 0..n
            invariant
                n == self.events@.len(),
                r@.map_values(|e: TriggerEvent| e@) == self@.take(i as int),
        {
            let c = self.events[i].copy();
            assert(c@ == self@[i as int]);
            let ghost before = r@;
            r.push(c);
            assert(r@ == before.push(c));
            assert(r@.map_values(|e: TriggerEvent| e@) =~= before.map_values(|e: TriggerEvent| e@).push(c@));
            assert(self@.take(i + 1) =~= self@.take(i as int).push(self@[i as int]));
        }
        assert(self@.take(n as int) =~= self@);
        r
    }
}

/// The log keeps exactly the latest firings, up to its limit: starting empty,
/// after recording `es` in turn it holds the last `RECENT_EVENTS_LIMIT` of them
/// (all of them when there are fewer), oldest first.
pub proof fn law_recent_events_keep_latest(es: Seq<TriggerEventView>)
    ensures
        recorded_all(Seq::empty(), es) == es.subrange(
            if es.len() > RECENT_EVENTS_LIMIT {
                es.len() - RECENT_EVENTS_LIMIT
            } else {
                0
            },
            es.len() as int,
        ),
    decreases es.len(),
{
    if es.len() > 0 {
        let init = es.drop_last();
        law_recent_events_keep_latest(init);
        let lo = if init.len() > RECENT_EVENTS_LIMIT {
            init.len() - RECENT_EVENTS_LIMIT
        } else {
            0
        };
        let prev = init.subrange(lo, init.len() as int);
        if prev.len() >= RECENT_EVENTS_LIMIT {
            assert(prev.drop_first().push(es.last()) =~= es.subrange(
                es.len() - RECENT_EVENTS_LIMIT,
                es.len() as int,
            ));
        } else {
            assert(prev.push(es.last()) =~= es.subrange(
                if es.len() > RECENT_EVENTS_LIMIT {
                    es.len() - RECENT_EVENTS_LIMIT
                } else {
                    0
                },
                es.len() as int,
            ));
        }
    }
}

/// Whether the vehicle has changed: a known vehicle name that differs from the
/// last one seen.
pub fn vehicle_changed(last_vehicle: &str, vehicle_name: &str) -> (r: bool)
    ensures
        r == (vehicle_name@ != "unknown"@ && last_vehicle@ != vehicle_name@),
{
    !str_eq(vehicle_name, "unknown") && !str_eq(last_vehicle, vehicle_name)
}

/// What a lost connection calls for.
#[derive(Debug, Clone, Copy, PartialEq, Eq, Structural)]
pub enum LostNotice {
    /// The connection was just lost.
    Lost,
    /// Still waiting, a round number of polls after the loss.
    StillWaiting,
    /// Nothing to report.
    Quiet,
}

/// The game connection as the main loop tracks it.
pub struct ConnectionTracker {
    pub established: bool,
    pub lost_polls: u32,
}

impl ConnectionTracker {
    /// Not connected yet.
    pub fn new() -> (r: Self)
        ensures
            !r.established,
            r.lost_polls == 0,
    {
        ConnectionTracker { established: false, lost_polls: 0 }
    }

    /// A poll succeeded; returns whether the connection is newly (re)established.
    pub fn on_state(&mut self) -> (r: bool)
        ensures
            r == (!old(self).established || old(self).lost_polls > 0),
            final(self).established,
            final(self).lost_polls == 0,
    {
        let r = !self.established || self.lost_polls > 0;
        if r {
            self.established = true;
            self.lost_polls = 0;
        }
        r
    }

    /// A poll failed; counts it (the count stops at its largest value) and says
    /// whether to report it.
    pub fn on_lost(&mut self) -> (r: LostNotice)
        ensures
            final(self).established == old(self).established,
            final(self).lost_polls == (if old(self).lost_polls < u32::MAX {
                old(self).lost_polls + 1
            } else {
                old(self).lost_polls as int
            }),
            r == (if final(self).lost_polls == 1 {
                LostNotice::Lost
            } else if final(self).lost_polls % 10 == 0 {
                LostNotice::StillWaiting
            } else {
                LostNotice::Quiet
            }),
    {
        self.lost_polls = self.lost_polls.saturating_add(1);
        if self.lost_polls == 1 {
            LostNotice::Lost
        } else if self.lost_polls % 10 == 0 {
            LostNotice::StillWaiting
        } else {
            LostNotice::Quiet
        }
    }
}

} // verus!
