use tailgunner::datamine::database::generate_identifier_alternatives;
use tailgunner::datamine::parser::extract_identifier;
use tailgunner::datamine::vromfs::{find_vromfs_archive, locate_unpacked, UnpackSource, VromfsError};
use tailgunner::datamine::{choose_parse_source, Datamine, DatamineError, ParseSource};
use tailgunner::event_engine::EventEngine;
use tailgunner::hud_messages::{HudMessage, HudMessages};
use tailgunner::pattern_engine::GameEvent;
use tailgunner::rate_limiter::RateLimiter;
use tailgunner::text::int_chars;
use tailgunner::wt_telemetry::{HudEvent, HudTracker, RawHudEntry, VehicleType};
use tailgunner::{vehicle_mode_info, vehicle_type_name};

fn text(v: Vec<char>) -> String {
    v.into_iter().collect()
}

#[test]
fn decimal_text_of_integers() {
    assert_eq!(text(int_chars(0)), "0");
    assert_eq!(text(int_chars(120)), "120");
    assert_eq!(text(int_chars(-45)), "-45");
    assert_eq!(text(int_chars(i64::MIN)), "-9223372036854775808");
    assert_eq!(text(int_chars(i64::MAX)), "9223372036854775807");
}

#[test]
fn vehicle_modes() {
    let m = vehicle_mode_info(Some((VehicleType::Ship, true)));
    assert_eq!(m.vehicle_type, "Ship");
    assert_eq!(m.mode, "HudOnly");
    assert_eq!(m.available_data.len(), 4);
    let m = vehicle_mode_info(Some((VehicleType::Tank, true)));
    assert_eq!(m.mode, "FullTelemetry");
    assert_eq!(m.available_data[0], "Speed & altitude");
    let m = vehicle_mode_info(Some((VehicleType::Aircraft, false)));
    assert_eq!(m.mode, "Disconnected");
    let m = vehicle_mode_info(None);
    assert_eq!(m.vehicle_type, "Unknown");
    assert_eq!(m.mode, "Disconnected");
    assert!(m.available_data.is_empty());
    assert_eq!(vehicle_type_name(VehicleType::Helicopter), "Helicopter");
}

#[test]
fn parse_source_choice() {
    assert!(matches!(choose_parse_source("G", true, true, false, true, true, "T"), ParseSource::Dir(d) if d == "G"));
    assert!(matches!(choose_parse_source("G", false, false, true, false, false, "T"), ParseSource::Dir(d) if d == "G"));
    assert!(matches!(choose_parse_source("G", true, false, false, true, true, "T"), ParseSource::Dir(d) if d == "T"));
    assert!(matches!(choose_parse_source("G", false, false, false, true, false, "T"), ParseSource::Unpack));
    assert!(matches!(choose_parse_source("G", false, false, false, false, false, "T"), ParseSource::Unpack));
}

#[test]
fn datamine_paths() {
    let d = Datamine::new("/nonexistent/War Thunder".to_string());
    assert_eq!(d.game_path(), "/nonexistent/War Thunder");
    assert!(matches!(d.prepare_game_files("/nonexistent/tmp"), ParseSource::Unpack));
    assert_eq!(
        Datamine::auto_detect(Some("D:\\Games\\War Thunder".to_string())),
        Ok("D:\\Games\\War Thunder".to_string())
    );
    assert_eq!(
        Datamine::find_game_path(Some("X".to_string())),
        Some("X".to_string())
    );
    let _ = DatamineError::NotFound;
    assert_eq!(find_vromfs_archive("/nonexistent/War Thunder"), None);
}

#[test]
fn identifiers_from_paths() {
    assert_eq!(extract_identifier("gamedata/flightmodels/fm/bf-109f-4.blkx"), Some("bf-109f-4".to_string()));
    assert_eq!(extract_identifier("dir/x.y.z"), Some("x.y".to_string()));
    assert_eq!(extract_identifier("noext"), Some("noext".to_string()));
}

#[test]
fn parse_event_lowercases_first() {
    assert_eq!(HudMessages::parse_event("TARGET DESTROYED"), HudMessages::parse_event("target destroyed"));
    assert_eq!(HudMessages::parse_event("nothing to see"), None);
}

#[test]
fn hud_messages_after_ids() {
    let msg = |id: u32, m: &str| HudMessage {
        id,
        msg: m.to_string(),
        sender: String::new(),
        enemy: false,
        mode: String::new(),
        time: 0,
    };
    let h = HudMessages {
        events: vec![msg(1, "a"), msg(2, "b")],
        damage: vec![msg(5, "x destroyed y"), msg(9, "z")],
    };
    let (e, d) = h.get_new_messages(1, 5);
    assert_eq!(e.len(), 1);
    assert_eq!(e[0].id, 2);
    assert_eq!(d.len(), 1);
    assert_eq!(d[0].id, 9);
}

#[test]
fn event_engine_reports_new_states_once() {
    let mut ee = EventEngine::new();
    let states = vec!["engine fire".to_string()];
    let first = ee.detect_events(true, VehicleType::Aircraft, &Vec::new(), &states);
    let second = ee.detect_events(true, VehicleType::Aircraft, &Vec::new(), &states);
    assert!(second.is_empty());
    let _ = first;
    let none = ee.detect_events(false, VehicleType::Aircraft, &Vec::new(), &states);
    assert!(none.is_empty());
    let ship = ee.detect_events(true, VehicleType::Ship, &vec![HudEvent::Crashed], &Vec::new());
    assert_eq!(ship.len(), 1);
}

#[test]
fn rate_limiter_spacing() {
    let mut r = RateLimiter::new();
    let ms: u64 = 1_000_000;
    assert!(r.should_send_at(0));
    assert!(r.try_send_at(1_000 * ms));
    assert!(!r.should_send_at(1_100 * ms));
    assert_eq!(r.time_until_next_at(1_100 * ms), 25 * ms);
    // Just under the interval is still refused.
    assert!(!r.try_send_at(1_125 * ms - 1));
    assert!(r.try_send_at(1_125 * ms));
    assert_eq!(r.time_until_next_at(1_125 * ms), 125 * ms);
}

#[test]
fn hud_tracker_replay_is_silent() {
    let mut t = HudTracker::new();
    t.set_player_names(vec!["Alice".to_string()]);
    let entry = |id: u64, m: &str, time: u64| RawHudEntry { id: Some(id), msg: Some(m.to_string()), time: Some(time) };
    let _first = t.process_poll(&vec![Some(3)], &vec![entry(1, "Alice (F-16A) destroyed Bob (MiG-29)", 100)]);
    let batch = vec![entry(2, "Alice (F-16A) set afire Carl (Su-27)", 101)];
    let got = t.process_poll(&vec![Some(3)], &batch);
    assert_eq!(got.len(), 1);
    assert!(matches!(&got[0], HudEvent::SetAfire(_)));
    let again = t.process_poll(&vec![Some(3)], &batch);
    assert!(again.is_empty());
    assert_eq!(t.last_event_id(), 3);
    assert_eq!(t.last_damage_id(), 2);
    let _ = GameEvent::Hit;
}

#[test]
fn identifier_spellings_sorted_once() {
    assert_eq!(
        generate_identifier_alternatives("Bf 109-F_4"),
        vec![
            "Bf 109-F_4", "bf 109-f-4", "bf 109-f_4", "bf 109_f_4", "bf109f4", "bf_109-f_4",
            "bf_109_f_4",
        ]
    );
    assert_eq!(generate_identifier_alternatives("abc"), vec!["abc"]);
    assert_eq!(generate_identifier_alternatives("ABC"), vec!["ABC", "abc"]);
}

#[test]
fn unpacked_archive_location() {
    assert_eq!(
        locate_unpacked("/nonexistent/aces.vromfs.bin", "/tmp").err(),
        Some(VromfsError::NotFound)
    );
    assert_eq!(locate_unpacked("/", "/tmp").err(), Some(VromfsError::NoParent));
    match locate_unpacked("/tmp", "/nonexistent") {
        Ok(UnpackSource::Unpack(dir)) => assert_eq!(dir, "/nonexistent/tailgunner_datamine/tmp_u"),
        _ => panic!("expected a place to unpack into"),
    }
}

#[test]
fn dump_endpoints_in_order() {
    let e = tailgunner::debug_dump::get_known_endpoints();
    assert_eq!(e.len(), 14);
    assert_eq!(e[0], "/");
    assert_eq!(e[5], "/hudmsg?lastEvt=0&lastDmg=0");
    assert_eq!(e[13], "/gamechat");
}

#[test]
fn test_rate_limiting() {
    let mut limiter = tailgunner::rate_limiter::RateLimiter::new();
    // First send should succeed
    assert!(limiter.try_send());
    // Immediate retry should be blocked
    assert!(!limiter.try_send());
    // Wait and try again
    let start = std::time::Instant::now();
    let wait = std::time::Duration::from_millis(tailgunner::rate_limiter::MIN_INTERVAL_MS + 10);
    while start.elapsed() < wait {
        std::hint::spin_loop();
    }
    assert!(limiter.try_send());
}

#[test]
fn fresh_limiter_has_no_wait() {
    let limiter = RateLimiter::new();
    assert_eq!(limiter.time_until_next(), 0);
    assert!(limiter.should_send());
}
