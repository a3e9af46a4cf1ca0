use tailgunner::event_triggers::{
    should_fire_event_trigger, EventTrigger, TriggerError, TriggerManager, TriggerSettings,
};
use tailgunner::pattern_engine::GameEvent;

fn trigger(id: &str, event: GameEvent, cooldown_ms: u64) -> EventTrigger<u32, Option<u32>, u32> {
    EventTrigger {
        id: id.to_string(),
        name: format!("{} trigger", id),
        description: String::new(),
        condition: 0,
        event,
        cooldown_ms,
        enabled: true,
        is_builtin: false,
        pattern: None,
        curve_points: None,
        continuous: false,
        is_event_based: false,
        filter_type: None,
        filter_text: None,
    }
}

fn filtered(event: GameEvent, filter: Option<&str>, text: Option<&str>) -> EventTrigger<u32, Option<u32>, u32> {
    let mut t = trigger("f", event, 0);
    t.is_event_based = true;
    t.filter_type = filter.map(|s| s.to_string());
    t.filter_text = text.map(|s| s.to_string());
    t
}

fn names(v: &[&str]) -> Vec<String> {
    v.iter().map(|s| s.to_string()).collect()
}

#[test]
fn filter_none_and_any_always_pass() {
    let none: Vec<String> = Vec::new();
    let t = filtered(GameEvent::TakingDamage, None, None);
    assert!(should_fire_event_trigger(&t, "whoever", &none, &none, &none, &none));
    let t = filtered(GameEvent::TakingDamage, Some("any"), None);
    assert!(should_fire_event_trigger(&t, "whoever", &none, &none, &none, &none));
}

#[test]
fn filter_my_players_passes_kills_and_checks_attackers() {
    let none: Vec<String> = Vec::new();
    let me = names(&["Dogbolter"]);
    let kill = filtered(GameEvent::TargetDestroyed, Some("my_players"), None);
    assert!(should_fire_event_trigger(&kill, "someone else", &me, &none, &none, &none));
    let hit = filtered(GameEvent::TakingDamage, Some("my_players"), None);
    assert!(should_fire_event_trigger(&hit, "Dogbolter (HMS Rodney)", &me, &none, &none, &none));
    assert!(!should_fire_event_trigger(&hit, "Emden", &me, &none, &none, &none));
}

#[test]
fn filter_enemy_clans_checks_the_entity() {
    let none: Vec<String> = Vec::new();
    let clans = names(&["[UNSKL]"]);
    let t = filtered(GameEvent::TargetDestroyed, Some("enemy_clans"), None);
    assert!(should_fire_event_trigger(&t, "[UNSKL] FriskQaQ (F-15E)", &none, &none, &none, &clans));
    assert!(!should_fire_event_trigger(&t, "FriskQaQ (F-15E)", &none, &none, &none, &clans));
}

#[test]
fn filter_text_contains_ignores_case() {
    let none: Vec<String> = Vec::new();
    let t = filtered(GameEvent::ChatMessage, Some("text_contains"), Some("GG"));
    assert!(should_fire_event_trigger(&t, "well played, gg all", &none, &none, &none, &none));
    assert!(!should_fire_event_trigger(&t, "hello", &none, &none, &none, &none));
    let no_text = filtered(GameEvent::ChatMessage, Some("text_contains"), None);
    assert!(!should_fire_event_trigger(&no_text, "gg", &none, &none, &none, &none));
}

#[test]
fn filter_unknown_type_never_passes() {
    let none: Vec<String> = Vec::new();
    let t = filtered(GameEvent::ChatMessage, Some("friends_only"), None);
    assert!(!should_fire_event_trigger(&t, "anything", &none, &none, &none, &none));
}

#[test]
fn add_trigger_replaces_same_id() {
    let mut m: TriggerManager<u32, Option<u32>, u32> = TriggerManager::new();
    m.add_trigger(trigger("a", GameEvent::LowFuel, 100));
    m.add_trigger(trigger("b", GameEvent::OverG, 100));
    let mut again = trigger("a", GameEvent::CriticalFuel, 5);
    again.name = "replaced".to_string();
    m.add_trigger(again);
    let ts = m.get_triggers();
    assert_eq!(ts.len(), 2);
    assert_eq!(ts[0].id, "a");
    assert_eq!(ts[0].name, "replaced");
    assert_eq!(ts[0].event, GameEvent::CriticalFuel);
    assert_eq!(ts[1].id, "b");
}

#[test]
fn remove_after_add_restores_table() {
    let mut m: TriggerManager<u32, Option<u32>, u32> = TriggerManager::new();
    m.add_trigger(trigger("a", GameEvent::LowFuel, 100));
    m.add_trigger(trigger("new", GameEvent::OverG, 100));
    assert!(m.remove_trigger("new"));
    assert_eq!(m.get_triggers().len(), 1);
    assert_eq!(m.get_triggers()[0].id, "a");
    assert!(!m.remove_trigger("new"));
}

#[test]
fn toggle_enable_disable_by_id() {
    let mut m: TriggerManager<u32, Option<u32>, u32> = TriggerManager::new();
    m.add_trigger(trigger("a", GameEvent::LowFuel, 100));
    m.toggle_trigger("a", false);
    assert!(!m.get_triggers()[0].enabled);
    assert!(m.enable_trigger("a"));
    assert!(m.get_triggers()[0].enabled);
    assert!(m.disable_trigger("a"));
    assert!(!m.get_triggers()[0].enabled);
    assert!(!m.disable_trigger("missing"));
    assert!(!m.enable_trigger("missing"));
}

#[test]
fn update_of_unknown_trigger_is_not_found() {
    let mut m: TriggerManager<u32, Option<u32>, u32> = TriggerManager::new();
    m.add_trigger(trigger("a", GameEvent::LowFuel, 100));
    assert_eq!(m.update_trigger("zzz", Some(1), None), Err(TriggerError::NotFound));
    assert_eq!(m.update_trigger("a", Some(7), Some(Some(3))), Ok(()));
    assert_eq!(m.get_triggers()[0].cooldown_ms, 7);
    assert_eq!(m.get_triggers()[0].pattern, Some(3));
    assert_eq!(
        m.update_trigger_condition("a", "Low".to_string(), "d".to_string(), 42),
        Ok(())
    );
    assert_eq!(m.get_triggers()[0].condition, 42);
    assert_eq!(m.get_triggers()[0].name, "Low");
    assert_eq!(
        m.update_trigger_condition("q", "x".to_string(), "y".to_string(), 1),
        Err(TriggerError::NotFound)
    );
}

#[test]
fn update_with_curve_rules() {
    let mut m: TriggerManager<u32, Option<u32>, u32> = TriggerManager::new();
    m.add_trigger(trigger("a", GameEvent::LowFuel, 100));
    // A curve alone replaces the curve.
    assert_eq!(m.update_trigger_with_curve("a", None, None, Some(9)), Ok(()));
    assert_eq!(m.get_triggers()[0].curve_points, Some(9));
    // A pattern brings its curve, even none.
    assert_eq!(m.update_trigger_with_curve("a", Some(1), Some(Some(5)), None), Ok(()));
    assert_eq!(m.get_triggers()[0].pattern, Some(5));
    assert_eq!(m.get_triggers()[0].curve_points, None);
    assert_eq!(m.get_triggers()[0].cooldown_ms, 1);
    assert_eq!(
        m.update_trigger_with_curve("b", None, None, None),
        Err(TriggerError::NotFound)
    );
}

#[test]
fn saved_settings_apply_by_id() {
    let mut m: TriggerManager<u32, Option<u32>, u32> = TriggerManager::new();
    m.add_trigger(trigger("a", GameEvent::LowFuel, 100));
    m.add_trigger(trigger("b", GameEvent::OverG, 100));
    m.apply_settings(vec![
        TriggerSettings { id: "b".to_string(), enabled: false, cooldown_ms: 9, pattern: Some(2), curve_points: Some(4) },
        TriggerSettings { id: "unknown".to_string(), enabled: false, cooldown_ms: 1, pattern: None, curve_points: None },
    ]);
    let ts = m.get_triggers();
    assert!(ts[0].enabled);
    assert_eq!(ts[0].cooldown_ms, 100);
    assert!(!ts[1].enabled);
    assert_eq!(ts[1].cooldown_ms, 9);
    assert_eq!(ts[1].pattern, Some(2));
    assert_eq!(ts[1].curve_points, Some(4));
}

#[test]
fn one_shot_trigger_rests_for_its_cooldown() {
    let mut m: TriggerManager<u32, Option<u32>, u32> = TriggerManager::new();
    m.add_trigger(trigger("a", GameEvent::OverG, 1000));
    assert_eq!(m.check_triggers_at(10_000, &vec![true]), vec![0]);
    assert_eq!(m.check_triggers_at(10_500, &vec![true]), Vec::<usize>::new());
    assert_eq!(m.check_triggers_at(10_999, &vec![true]), Vec::<usize>::new());
    assert_eq!(m.check_triggers_at(11_000, &vec![true]), vec![0]);
    assert_eq!(m.check_triggers_at(12_500, &vec![false]), Vec::<usize>::new());
}

#[test]
fn cleared_cooldowns_let_triggers_fire_again() {
    let mut m: TriggerManager<u32, Option<u32>, u32> = TriggerManager::new();
    m.add_trigger(trigger("a", GameEvent::OverG, 1000));
    assert_eq!(m.check_triggers_at(0, &vec![true]), vec![0]);
    m.clear_cooldowns();
    assert_eq!(m.check_triggers_at(1, &vec![true]), vec![0]);
}

#[test]
fn continuous_fires_while_holding_and_others_are_skipped() {
    let mut m: TriggerManager<u32, Option<u32>, u32> = TriggerManager::new();
    let mut c = trigger("c", GameEvent::EngineRunning, 1000);
    c.continuous = true;
    m.add_trigger(c);
    let mut e = trigger("e", GameEvent::TargetDestroyed, 0);
    e.is_event_based = true;
    m.add_trigger(e);
    let mut d = trigger("d", GameEvent::LowFuel, 0);
    d.enabled = false;
    m.add_trigger(d);
    let all = vec![true, true, true];
    assert_eq!(m.check_triggers_at(5, &all), vec![0]);
    assert_eq!(m.check_triggers_at(6, &all), vec![0]);
    assert_eq!(m.check_triggers_at(7, &all), vec![0]);
}

#[test]
fn user_patterns_are_selected_for_export() {
    let mut m: TriggerManager<u32, Option<u32>, u32> = TriggerManager::new();
    let mut builtin = trigger("low_fuel", GameEvent::LowFuel, 1000);
    builtin.is_builtin = true;
    m.add_trigger(builtin);
    m.add_trigger(trigger("mine", GameEvent::Hit, 0));
    let mut off = trigger("other", GameEvent::OverG, 0);
    off.enabled = false;
    m.add_trigger(off);
    assert_eq!(m.user_trigger_positions(), vec![1, 2]);
    assert_eq!(m.find_user_trigger("mine"), Some(1));
    assert_eq!(m.find_user_trigger("low_fuel"), None);
    assert_eq!(m.find_user_trigger("absent"), None);
    assert_eq!(m.enabled_count(), 2);
}

#[test]
fn saved_settings_restore_the_table() {
    let mut saved: TriggerManager<u32, Option<u32>, u32> = TriggerManager::new();
    let mut a = trigger("a", GameEvent::Hit, 100);
    a.enabled = false;
    a.pattern = Some(7);
    saved.add_trigger(a);
    saved.add_trigger(trigger("b", GameEvent::OverG, 200));
    let settings: Vec<TriggerSettings<Option<u32>, u32>> = saved
        .get_triggers()
        .iter()
        .map(|t| TriggerSettings { id: t.id.clone(), enabled: t.enabled, cooldown_ms: t.cooldown_ms, pattern: t.pattern, curve_points: t.curve_points })
        .collect();
    let mut table: TriggerManager<u32, Option<u32>, u32> = TriggerManager::new();
    let mut a2 = trigger("a", GameEvent::Hit, 5);
    a2.condition = 42;
    table.add_trigger(a2);
    table.add_trigger(trigger("c", GameEvent::LowFuel, 9));
    table.apply_settings(settings);
    let ts = table.get_triggers();
    assert_eq!(ts.len(), 2);
    assert!(!ts[0].enabled);
    assert_eq!(ts[0].cooldown_ms, 100);
    assert_eq!(ts[0].pattern, Some(7));
    assert_eq!(ts[0].condition, 42);
    assert_eq!(ts[1].id, "c");
    assert_eq!(ts[1].cooldown_ms, 9);
}
