use tailgunner::hud_messages::HudMessages;
use tailgunner::pattern_engine::GameEvent;

#[test]
fn test_parse_destroyed() {
    let msg = "=DEST= _WingsOfPrey_ (IJN Yamashiro) destroyed PT-103";
    assert_eq!(HudMessages::parse_event(msg), Some(GameEvent::TargetDestroyed));
}

#[test]
fn test_parse_set_afire() {
    let msg = "gouliguojia386 (HMS Nelson) set afire Emden";
    assert_eq!(HudMessages::parse_event(msg), Some(GameEvent::TargetSetOnFire));
}

#[test]
fn test_parse_first_strike() {
    let msg = "Dogbolter (HMS Rodney) has delivered the first strike!";
    assert_eq!(HudMessages::parse_event(msg), Some(GameEvent::FirstStrike));
}

#[test]
fn test_parse_critically_damaged() {
    let msg = "=TVS4N= The_Fent_Fairy (␗F-16A) critically damaged [UNSKL] FriskQaQ (F-15E)";
    assert_eq!(HudMessages::parse_event(msg), Some(GameEvent::TargetCritical));
}
