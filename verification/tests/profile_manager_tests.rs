use tailgunner::profile_manager::{GameMode, Profile, ProfileManager};
use tailgunner::wt_telemetry::VehicleType;

fn profile(id: &str, vt: VehicleType, enabled: bool) -> Profile<u8> {
    Profile {
        id: id.to_string(),
        name: id.to_string(),
        vehicle_type: vt,
        game_mode: GameMode::Any,
        event_mappings: 0,
        enabled,
    }
}

fn manager() -> ProfileManager<u8> {
    let mut m = ProfileManager::new();
    m.add_profile(profile("tank_universal", VehicleType::Tank, true));
    m.add_profile(profile("aircraft_universal", VehicleType::Aircraft, true));
    m.add_profile(profile("light_background", VehicleType::Unknown, false));
    m
}

#[test]
fn exact_profile_is_chosen() {
    let mut m = manager();
    assert_eq!(m.auto_select_profile(&VehicleType::Aircraft), Some(1));
    assert_eq!(m.get_active_profile().unwrap().id, "aircraft_universal");
    assert_eq!(m.auto_select_profile(&VehicleType::Tank), Some(0));
    assert_eq!(m.get_active_profile().unwrap().id, "tank_universal");
}

#[test]
fn no_match_keeps_the_active_profile() {
    let mut m = manager();
    m.auto_select_profile(&VehicleType::Tank);
    assert_eq!(m.auto_select_profile(&VehicleType::Ship), None);
    assert_eq!(m.get_active_profile().unwrap().id, "tank_universal");
}

#[test]
fn general_profile_is_the_fallback_and_the_last_wins() {
    let mut m = manager();
    m.toggle_profile("light_background", true);
    m.add_profile(profile("second_general", VehicleType::Unknown, true));
    assert_eq!(m.auto_select_profile(&VehicleType::Ship), Some(3));
    m.add_profile(profile("tank_two", VehicleType::Tank, true));
    assert_eq!(m.auto_select_profile(&VehicleType::Tank), Some(4));
}

#[test]
fn removing_the_active_profile_clears_it() {
    let mut m = manager();
    m.auto_select_profile(&VehicleType::Tank);
    m.remove_profile("tank_universal");
    assert!(m.get_active_profile().is_none());
    assert_eq!(m.get_all_profiles().len(), 2);
    assert_eq!(m.get_all_profiles()[0].id, "aircraft_universal");
}
