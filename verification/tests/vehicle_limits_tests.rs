use tailgunner::vehicle_limits::{limits_identifier, VehicleLimitsManager};

#[test]
fn identifier_of_vehicle_name() {
    assert_eq!(limits_identifier("Bf 109 F-4"), "bf_109_f_4");
    assert_eq!(limits_identifier("t_34_1941"), "t_34_1941");
    assert_eq!(limits_identifier(""), "");
}

#[test]
fn limits_follow_vehicle_changes() {
    let mut m: VehicleLimitsManager<u32> = VehicleLimitsManager::new();
    assert!(m.get_limits().is_none());
    assert!(!m.is_current("f_16a"));
    m.update_vehicle("f_16a", Some(7));
    assert!(m.is_current("f_16a"));
    assert_eq!(m.get_limits(), Some(&7));
    // The same vehicle again changes nothing.
    m.update_vehicle("f_16a", Some(9));
    assert_eq!(m.get_limits(), Some(&7));
    // A vehicle without limits keeps those in force.
    m.update_vehicle("unknown_plane", None);
    assert!(m.is_current("unknown_plane"));
    assert_eq!(m.get_limits(), Some(&7));
    m.update_vehicle("yak-3", Some(3));
    assert_eq!(m.get_limits(), Some(&3));
    let none: Vec<String> = m.generate_limit_triggers();
    assert!(none.is_empty());
}
