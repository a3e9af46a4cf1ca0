//! Triggers fitted to the current vehicle's limits: each fires when its
//! condition holds and its cooldown has run out.
//!
//! The condition is the type parameter `C`; whether it holds is decided by the
//! caller.
use vstd::prelude::*;

use crate::pattern_engine::GameEvent;

verus! {

/// A trigger fitted to the current vehicle.
pub struct DynamicTrigger<C> {
    pub id: String,
    pub name: String,
    pub condition: C,
    pub event: GameEvent,
    /// When it last fired, in milliseconds on the caller's clock.
    pub last_fired: Option<u64>,
    pub cooldown_ms: u64,
}

/// Whether a trigger that last fired at `last` is still cooling down at `now`.
pub open spec fn cooling_down(last: Option<u64>, now: u64, cooldown_ms: u64) -> bool {
    match last {
        Some(t) => (if now >= t { now - t } else { 0int }) < cooldown_ms,
        None => false,
    }
}

impl<C> DynamicTrigger<C> {
    /// A trigger that has not fired yet.
    pub fn new(id: String, name: String, condition: C, event: GameEvent, cooldown_ms: u64) -> (r: Self)
        ensures
            r.id == id,
            r.name == name,
            r.condition == condition,
            r.event == event,
            r.last_fired is None,
            r.cooldown_ms == cooldown_ms,
    {
        DynamicTrigger { id, name, condition, event, last_fired: None, cooldown_ms }
    }

    /// Checks the trigger at time `now`, where `holds` tells whether its
    /// condition holds: it fires, and its cooldown starts, when it is not cooling
    /// down and the condition holds.
    pub fn check_at(&mut self, now: u64, holds: bool) -> (r: bool)
        ensures
            r == (!cooling_down(old(self).last_fired, now, old(self).cooldown_ms) && holds),
            final(self).last_fired == (if r {
                Some(now)
            } else {
                old(self).last_fired
            }),
            final(self).id == old(self).id,
            final(self).name == old(self).name,
            final(self).condition == old(self).condition,
            final(self).event == old(self).event,
            final(self).cooldown_ms == old(self).cooldown_ms,
    {
        if let Some(t) = self.last_fired {
            let elapsed = if now >= t { now - t } else { 0 };
            if elapsed < self.cooldown_ms {
                return false;
            }
        }
        if holds {
            self.last_fired = Some(now);
            true
        } else {
            false
        }
    }
}

/// A trigger that fired at `now1` does not fire again at `now2` before its
/// cooldown has run out.
pub proof fn law_dynamic_cooldown(now1: u64, now2: u64, cooldown_ms: u64)
    requires
        now1 <= now2,
        now2 - now1 < cooldown_ms,
    ensures
        cooling_down(Some(now1), now2, cooldown_ms),
{
}

/// The triggers built from a vehicle's limits, in the order they are built: at
/// 95% and at 99% of its top speed, at 90% and at 100% of its positive load
/// limit, and at 90% of its negative one.
#[derive(Debug, Clone, Copy, PartialEq, Eq, Structural)]
pub enum DynamicRule {
    Overspeed,
    CriticalSpeed,
    OverG,
    CriticalOverG,
    NegativeG,
}

/// The rules, in the order in which their triggers are built.
pub open spec fn dynamic_rules() -> Seq<DynamicRule> {
    seq![
        DynamicRule::Overspeed,
        DynamicRule::CriticalSpeed,
        DynamicRule::OverG,
        DynamicRule::CriticalOverG,
        DynamicRule::NegativeG,
    ]
}

/// The id, event and cooldown of a rule's trigger.
pub open spec fn rule_spec(r: DynamicRule) -> (Seq<char>, GameEvent, u64) {
    match r {
        DynamicRule::Overspeed => ("dynamic_overspeed"@, GameEvent::Overspeed, 5000),
        DynamicRule::CriticalSpeed => ("dynamic_critical_speed"@, GameEvent::Overspeed, 3000),
        DynamicRule::OverG => ("dynamic_overg"@, GameEvent::OverG, 2000),
        DynamicRule::CriticalOverG => ("dynamic_critical_overg"@, GameEvent::OverG, 1000),
        DynamicRule::NegativeG => ("dynamic_negative_g"@, GameEvent::OverG, 2000),
    }
}

/// The rules, in the order in which their triggers are built.
pub fn all_dynamic_rules() -> (r: Vec<DynamicRule>)
    ensures
        r@ == dynamic_rules(),
{
    let r = vec![
        DynamicRule::Overspeed,
        DynamicRule::CriticalSpeed,
        DynamicRule::OverG,
        DynamicRule::CriticalOverG,
        DynamicRule::NegativeG,
    ];
    assert(r@ =~= dynamic_rules());
    r
}

/// The trigger of rule `r`, with the name and condition the caller made of the
/// vehicle's limits.
pub fn rule_trigger<C>(r: DynamicRule, name: String, condition: C) -> (t: DynamicTrigger<C>)
    ensures
        (t.id@, t.event, t.cooldown_ms) == rule_spec(r),
        t.name == name,
        t.condition == condition,
        t.last_fired is None,
{
    let (id, event, cooldown) = match r {
        DynamicRule::Overspeed => ("dynamic_overspeed", GameEvent::Overspeed, 5000u64),
        DynamicRule::CriticalSpeed => ("dynamic_critical_speed", GameEvent::Overspeed, 3000u64),
        DynamicRule::OverG => ("dynamic_overg", GameEvent::OverG, 2000u64),
        DynamicRule::CriticalOverG => ("dynamic_critical_overg", GameEvent::OverG, 1000u64),
        DynamicRule::NegativeG => ("dynamic_negative_g", GameEvent::OverG, 2000u64),
    };
    DynamicTrigger::new(String::from_str(id), name, condition, event, cooldown)
}

/// The triggers fitted to the current vehicle.
pub struct DynamicTriggerManager<C> {
    triggers: Vec<DynamicTrigger<C>>,
}

impl<C> DynamicTriggerManager<C> {
    /// The triggers, in order.
    pub closed spec fn triggers(&self) -> Seq<DynamicTrigger<C>> {
        self.triggers@
    }

    /// No triggers until a vehicle is known.
    pub fn new() -> (r: Self)
        ensures
            r.triggers() == Seq::<DynamicTrigger<C>>::empty(),
    {
        DynamicTriggerManager { triggers: Vec::new() }
    }

    /// Replaces the triggers by those built for a new vehicle.
    pub fn rebuild_dynamic_triggers(&mut self, triggers: Vec<DynamicTrigger<C>>)
        ensures
            final(self).triggers() == triggers@,
    {
        self.triggers = triggers;
    }

    /// How many triggers there are.
    pub fn get_trigger_count(&self) -> (r: usize)
        ensures
            r == self.triggers().len(),
    {
        self.triggers.len()
    }

    /// The trigger at position `i`.
    pub fn get_trigger(&self, i: usize) -> (r: &DynamicTrigger<C>)
        requires
            i < self.triggers().len(),
        ensures
            *r == self.triggers()[i as int],
    {
        &self.triggers[i]
    }

    /// Checks every trigger at time `now`, in order, where `holds[i]` tells
    /// whether the condition of trigger `i` holds; answers the positions of
    /// those that fired, in order (their events are read with `get_trigger`).
    pub fn check_dynamic_triggers_at(&mut self, now: u64, holds: &Vec<bool>) -> (r: Vec<usize>)
        requires
            holds@.len() == old(self).triggers().len(),
        ensures
            final(self).triggers().len() == old(self).triggers().len(),
            forall|i: int|
                0 <= i < old(self).triggers().len() ==> {
                    let t = old(self).triggers()[i];
                    let fired = !cooling_down(t.last_fired, now, t.cooldown_ms) && holds@[i];
                    &&& (#[trigger] final(self).triggers()[i]).last_fired == if fired {
                        Some(now)
                    } else {
                        t.last_fired
                    }
                    &&& final(self).triggers()[i].id == t.id
                    &&& final(self).triggers()[i].name == t.name
                    &&& final(self).triggers()[i].condition == t.condition
                    &&& final(self).triggers()[i].event == t.event
                    &&& final(self).triggers()[i].cooldown_ms == t.cooldown_ms
                },
            r@.map_values(|k: usize| k as int) == fired_positions(
                old(self).triggers(),
                now,
                holds@,
                old(self).triggers().len() as int,
            ),
    {
        let n = self.triggers.len();
        let ghost before = self.triggers@;
        let mut r: Vec<usize> = Vec::new();
        for i in 0..n
            invariant
                n == before.len() == holds@.len(),
                self.triggers@.len() == n,
                forall|j: int| i <= j < n ==> #[trigger] self.triggers@[j] == before[j],
                forall|j: int|
                    0 <= j < i ==> {
                        let t = before[j];
                        let fired = !cooling_down(t.last_fired, now, t.cooldown_ms) && holds@[j];
                        &&& (#[trigger] self.triggers@[j]).last_fired == if fired {
                            Some(now)
                        } else {
                            t.last_fired
                        }
                        &&& self.triggers@[j].id == t.id
                        &&& self.triggers@[j].name == t.name
                        &&& self.triggers@[j].condition == t.condition
                        &&& self.triggers@[j].event == t.event
                        &&& self.triggers@[j].cooldown_ms == t.cooldown_ms
                    },
                r@.map_values(|k: usize| k as int) == fired_positions(before, now, holds@, i as int),
        {
            let mut t = self.triggers.remove(i);
            let fired = t.check_at(now, holds[i]);
            self.triggers.insert(i, t);
            let ghost old_r = r@;
            if fired {
                r.push(i);
                assert(r@.map_values(|k: usize| k as int) =~= old_r.map_values(|k: usize| k as int).push(
                    i as int,
                ));
            }
        }
        r
    }
}

/// The positions among the first `n` triggers of those that fire at `now`, in
/// order.
pub open spec fn fired_positions<C>(ts: Seq<DynamicTrigger<C>>, now: u64, holds: Seq<bool>, n: int) -> Seq<int>
    decreases n,
{
    if n <= 0 {
        Seq::empty()
    } else {
        let t = ts[n - 1];
        let rest = fired_positions(ts, now, holds, n - 1);
        if !cooling_down(t.last_fired, now, t.cooldown_ms) && holds[n - 1] {
            rest.push(n - 1)
        } else {
            rest
        }
    }
}

} // verus!
