use std::collections::HashMap;
use tailgunner::api_emulator::{army_name, emulated_map_objects, map_icon, type_field, EmulatorEvents, ObjectPlace, VehicleType};
use tailgunner::api_server::{mission_objectives, status_type, ServerMessages};
use tailgunner::map_module::{find_player, MapObjectInfo};

#[test]
fn emulated_type_field() {
    assert_eq!(type_field(VehicleType::Tank, "T 34 85"), "tankModels/T_34_85");
    assert_eq!(type_field(VehicleType::Aircraft, "f_16a"), "f_16a");
    assert_eq!(type_field(VehicleType::Ship, "HMS Nelson"), "HMS_Nelson");
    assert_eq!(army_name(VehicleType::Tank), "ground");
    assert_eq!(army_name(VehicleType::Aircraft), "air");
    assert_eq!(army_name(VehicleType::Ship), "sea");
    assert_eq!(map_icon(VehicleType::Ship), "Ship");
}

#[test]
fn emulated_events_after_a_time() {
    let mut ev = EmulatorEvents::new();
    let mut d = HashMap::new();
    d.insert("target".to_string(), "Emden".to_string());
    ev.trigger_event_at("kill".to_string(), d, 100);
    ev.trigger_event_at("hit".to_string(), HashMap::new(), 200);
    ev.trigger_event_at("crash".to_string(), HashMap::new(), 300);
    let later = ev.get_events(100);
    assert_eq!(later.len(), 2);
    assert_eq!(later[0].event_type, "hit");
    assert_eq!(later[1].timestamp, 300);
    let all = ev.get_events(0);
    assert_eq!(all[0].data.get("target").map(|s| s.as_str()), Some("Emden"));
    ev.clear_events();
    assert!(ev.get_events(0).is_empty());
}

#[test]
fn chat_defaults_and_numbering() {
    let mut s = ServerMessages::new();
    let m = s.send_chat("hello".to_string(), None, None, None, 5);
    assert_eq!(m.id, 1);
    assert_eq!(m.sender, "TestPlayer");
    assert_eq!(m.mode, "");
    assert!(!m.enemy);
    let m2 = s.send_chat("gg".to_string(), Some("All".to_string()), Some("Bob".to_string()), Some(true), 6);
    assert_eq!(m2.id, 2);
    assert_eq!(m2.sender, "Bob");
    let newer = s.chat_since(1);
    assert_eq!(newer.len(), 1);
    assert_eq!(newer[0].msg, "gg");
    assert_eq!(s.chat_since(0).len(), 2);
}

#[test]
fn stores_keep_the_latest_hundred() {
    let mut s = ServerMessages::new();
    for i in 0..120u32 {
        s.send_chat(format!("m{}", i), None, None, None, i);
    }
    let all = s.chat_since(0);
    assert_eq!(all.len(), 100);
    assert_eq!(all[0].msg, "m20");
    assert_eq!(all[99].id, 120);
}

#[test]
fn hud_messages_go_to_their_store() {
    let mut s = ServerMessages::new();
    let a = s.send_hud("shot down".to_string(), "damage", 1);
    let b = s.send_hud("captured".to_string(), "event", 2);
    assert_eq!((a.id, b.id), (1, 2));
    let (events, damage) = s.hud_since(0, 0);
    assert_eq!(events.len(), 1);
    assert_eq!(events[0].msg, "captured");
    assert_eq!(damage.len(), 1);
    assert_eq!(damage[0].sender, "");
    let (events, damage) = s.hud_since(2, 1);
    assert!(events.is_empty());
    assert!(damage.is_empty());
}

#[test]
fn emulated_map_objects_by_kind() {
    let tank = emulated_map_objects(VehicleType::Tank);
    assert_eq!(tank.len(), 9);
    assert_eq!(tank[0].place, ObjectPlace::Player);
    assert_eq!(tank[0].info.icon, "Player");
    assert_eq!(tank[0].info.color, "#faC81E");
    assert_eq!(tank[1].place, ObjectPlace::Enemy(0));
    assert_eq!(tank[1].info.color, "#fa0C00");
    assert_eq!(tank[1].info.icon, "Tank");
    assert_eq!(tank[4].place, ObjectPlace::Ally(0));
    assert_eq!(tank[4].info.color, "#174DFF");
    assert_eq!(tank[6].place, ObjectPlace::ZoneA);
    assert_eq!(tank[7].info.color, "#FFFFFF");
    assert_eq!(tank[8].info.obj_type, "capture_zone");
    let air = emulated_map_objects(VehicleType::Aircraft);
    assert_eq!(air.len(), 11);
    assert_eq!(air[6].place, ObjectPlace::FriendlyAirfield);
    assert_eq!(air[6].info.icon, "none");
    assert_eq!(air[10].place, ObjectPlace::EnemyFighterSpawn);
    assert_eq!(air[10].info.obj_type, "respawn_base_fighter");
    assert_eq!(air[2].info.icon, "Aircraft");
    let ship = emulated_map_objects(VehicleType::Ship);
    assert_eq!(ship.len(), 6);
    assert_eq!(ship[5].info.icon, "Ship");
}

#[test]
fn emulated_player_is_found_first() {
    for vt in [VehicleType::Tank, VehicleType::Aircraft, VehicleType::Ship] {
        let infos: Vec<MapObjectInfo> = emulated_map_objects(vt).into_iter().map(|o| o.info).collect();
        assert_eq!(find_player(&infos), Some(0));
        assert_eq!(infos.iter().filter(|o| o.is_player()).count(), 1);
    }
}

#[test]
fn emulated_mission_and_status() {
    assert_eq!(status_type(VehicleType::Tank), "tank");
    assert_eq!(status_type(VehicleType::Aircraft), "aircraft");
    assert_eq!(status_type(VehicleType::Ship), "ship");
    let air = mission_objectives(VehicleType::Aircraft);
    assert_eq!(air.len(), 3);
    assert!(air[0].primary && air[1].primary && !air[2].primary);
    assert_eq!(air[1].text, "Destroy ground targets (0/12)");
    let tank = mission_objectives(VehicleType::Tank);
    assert_eq!(tank.len(), 2);
    assert_eq!(tank[1].text, "Capture and hold all points");
    let ship = mission_objectives(VehicleType::Ship);
    assert_eq!(ship[0].text, "Destroy the enemy fleet");
}
