use tailgunner::dynamic_triggers::{all_dynamic_rules, rule_trigger, DynamicRule, DynamicTrigger, DynamicTriggerManager};
use tailgunner::pattern_engine::GameEvent;
use tailgunner::state_history::{StateHistory, StateSnapshot};

fn snap(t: u64, v: i32) -> StateSnapshot<i32> {
    StateSnapshot { timestamp: t, values: v }
}

#[test]
fn history_keeps_at_most_its_size() {
    let mut h: StateHistory<i32> = StateHistory::new(3, 10_000);
    for t in 0..5u64 {
        h.push(t * 100, snap(t * 100, t as i32));
    }
    assert_eq!(h.latest().map(|s| s.values), Some(4));
    assert_eq!(h.window(0).len(), 3);
    assert_eq!(h.window(0), vec![0, 1, 2]);
}

#[test]
fn history_drops_old_snapshots_first() {
    let mut h: StateHistory<i32> = StateHistory::new(100, 1_000);
    h.push(0, snap(0, 1));
    h.push(500, snap(500, 2));
    h.push(1_200, snap(1_200, 3));
    // The first snapshot was 1200 old, more than 1000: it went.
    assert_eq!(h.window(0).len(), 2);
    assert_eq!(h.get_seconds_ago(1_200, 600).map(|s| s.values), Some(2));
    assert_eq!(h.get_seconds_ago(1_200, 800).map(|s| s.values), None);
    assert_eq!(h.window(600), vec![1]);
    h.clear();
    assert!(h.latest().is_none());
}

#[test]
fn dynamic_trigger_cooldown() {
    let mut t = DynamicTrigger::new("dynamic_overg".to_string(), "OverG".to_string(), (), GameEvent::OverG, 2000);
    assert!(!t.check_at(0, false));
    assert!(t.check_at(100, true));
    assert!(!t.check_at(1_500, true));
    assert!(!t.check_at(2_099, true));
    assert!(t.check_at(2_100, true));
    assert_eq!(t.last_fired, Some(2_100));
}

#[test]
fn dynamic_rules_in_order() {
    let rules = all_dynamic_rules();
    assert_eq!(rules.len(), 5);
    assert_eq!(rules[0], DynamicRule::Overspeed);
    assert_eq!(rules[4], DynamicRule::NegativeG);
    let t = rule_trigger(DynamicRule::CriticalSpeed, "Critical Speed (628+ km/h)".to_string(), ());
    assert_eq!(t.id, "dynamic_critical_speed");
    assert_eq!(t.event, GameEvent::Overspeed);
    assert_eq!(t.cooldown_ms, 3000);
    assert_eq!(t.last_fired, None);
    let n = rule_trigger(DynamicRule::NegativeG, "Negative G".to_string(), ());
    assert_eq!((n.id.as_str(), n.cooldown_ms), ("dynamic_negative_g", 2000));
    assert_eq!(n.event, GameEvent::OverG);
}

#[test]
fn dynamic_manager_checks_each_trigger() {
    let mut m: DynamicTriggerManager<()> = DynamicTriggerManager::new();
    assert_eq!(m.get_trigger_count(), 0);
    let triggers: Vec<DynamicTrigger<()>> =
        all_dynamic_rules().into_iter().map(|r| rule_trigger(r, String::new(), ())).collect();
    m.rebuild_dynamic_triggers(triggers);
    assert_eq!(m.get_trigger_count(), 5);
    let fired = m.check_dynamic_triggers_at(10_000, &vec![true, false, true, true, false]);
    assert_eq!(fired, vec![0, 2, 3]);
    assert_eq!(m.get_trigger(2).event, GameEvent::OverG);
    // 1.5 s later: only the critical over-G trigger (1 s cooldown) is ready again.
    let again = m.check_dynamic_triggers_at(11_500, &vec![true, true, true, true, true]);
    assert_eq!(again, vec![1, 3, 4]);
    assert_eq!(m.get_trigger(3).last_fired, Some(11_500));
    assert_eq!(m.get_trigger(0).last_fired, Some(10_000));
}
