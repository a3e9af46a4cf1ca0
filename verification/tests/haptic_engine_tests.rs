use tailgunner::event_triggers::EventTrigger;
use tailgunner::haptic_engine::{
    hud_event_target, hud_event_type, match_event_triggers, vehicle_changed, ConnectionTracker,
    LostNotice, RecentTriggerEvents, TriggerEvent,
};
use tailgunner::pattern_engine::GameEvent;
use tailgunner::wt_telemetry::HudEvent;

fn event_trigger(id: &str, event: GameEvent, filter: Option<&str>) -> EventTrigger<(), (), ()> {
    EventTrigger {
        id: id.to_string(),
        name: id.to_string(),
        description: String::new(),
        condition: (),
        event,
        cooldown_ms: 0,
        enabled: true,
        is_builtin: false,
        pattern: (),
        curve_points: None,
        continuous: false,
        is_event_based: true,
        filter_type: filter.map(|s| s.to_string()),
        filter_text: None,
    }
}

fn entry(n: usize) -> TriggerEvent {
    TriggerEvent {
        trigger_name: format!("t{}", n),
        event_type: "TargetDestroyed".to_string(),
        entity: format!("e{}", n),
        timestamp: "12:00:00".to_string(),
    }
}

#[test]
fn hud_events_name_their_entity_and_event() {
    let (e, g) = hud_event_target(&HudEvent::Kill("Emden".to_string()));
    assert_eq!(e, "Emden");
    assert_eq!(g, GameEvent::TargetDestroyed);
    let (e, g) = hud_event_target(&HudEvent::Crashed);
    assert_eq!(e, "");
    assert_eq!(g, GameEvent::Crashed);
    let (e, g) = hud_event_target(&HudEvent::TakeDamage("Bob".to_string()));
    assert_eq!(e, "Bob");
    assert_eq!(g, GameEvent::TakingDamage);
    assert_eq!(hud_event_type(&HudEvent::EngineOverheated), "EngineOverheat");
    assert_eq!(hud_event_type(&HudEvent::SetAfire("x".to_string())), "EnemySetAfire");
}

#[test]
fn event_triggers_match_by_event_and_filter() {
    let hud = vec![
        HudEvent::Kill("Emden".to_string()),
        HudEvent::TakeDamage("Bob".to_string()),
        HudEvent::Crashed,
    ];
    let mut off = event_trigger("off", GameEvent::TargetDestroyed, None);
    off.enabled = false;
    let mut state_based = event_trigger("state", GameEvent::TargetDestroyed, None);
    state_based.is_event_based = false;
    let triggers = vec![
        event_trigger("kill", GameEvent::TargetDestroyed, Some("my_players")),
        event_trigger("hit_by_me", GameEvent::TakingDamage, Some("my_players")),
        event_trigger("crash", GameEvent::Crashed, None),
        off,
        state_based,
        event_trigger("any_hit", GameEvent::TakingDamage, Some("any")),
    ];
    let me = vec!["Alice".to_string()];
    let none: Vec<String> = Vec::new();
    let pairs = match_event_triggers(&hud, &triggers, &me, &none, &none, &none);
    assert_eq!(pairs, vec![(0, 0), (1, 5), (2, 2)]);
}

#[test]
fn recent_events_keep_the_latest_ten() {
    let mut log = RecentTriggerEvents::new();
    for n in 0..13 {
        log.record(entry(n));
    }
    let kept = log.get_recent_trigger_events();
    assert_eq!(kept.len(), 10);
    assert_eq!(kept[0].trigger_name, "t3");
    assert_eq!(kept[9].trigger_name, "t12");
    assert_eq!(kept[9].entity, "e12");
}

#[test]
fn recent_events_below_the_limit_keep_all() {
    let mut log = RecentTriggerEvents::new();
    log.record(entry(1));
    log.record(entry(2));
    let kept = log.get_recent_trigger_events();
    assert_eq!(kept.len(), 2);
    assert_eq!(kept[0].trigger_name, "t1");
}

#[test]
fn vehicle_change_needs_a_known_new_name() {
    assert!(vehicle_changed("", "bf-109f-4"));
    assert!(!vehicle_changed("bf-109f-4", "bf-109f-4"));
    assert!(!vehicle_changed("bf-109f-4", "unknown"));
    assert!(vehicle_changed("bf-109f-4", "spitfire"));
}

#[test]
fn connection_tracker_reports_loss_and_reconnection() {
    let mut c = ConnectionTracker::new();
    assert!(c.on_state());
    assert!(!c.on_state());
    assert_eq!(c.on_lost(), LostNotice::Lost);
    for _ in 0..8 {
        assert_eq!(c.on_lost(), LostNotice::Quiet);
    }
    assert_eq!(c.on_lost(), LostNotice::StillWaiting);
    assert_eq!(c.lost_polls, 10);
    assert!(c.on_state());
    assert_eq!(c.lost_polls, 0);
}
