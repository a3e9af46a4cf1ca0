use tailgunner::device_history_db::DeviceRecord;
use tailgunner::device_manager::{
    lovense_device_id, lovense_port, DeviceError, DeviceInfo, DeviceRegistry, DeviceType,
};

#[test]
fn lovense_ids_and_ports() {
    assert_eq!(lovense_device_id("192.168.1.5"), "lovense_192_168_1_5");
    assert_eq!(lovense_device_id(""), "lovense_");
    assert_eq!(lovense_port(None), 20010);
    assert_eq!(lovense_port(Some(30010)), 30010);
}

#[test]
fn lovense_devices_are_listed_and_removed_by_name() {
    let mut reg = DeviceRegistry::new();
    reg.set_devices(vec![DeviceInfo { id: 0, name: "Hush".to_string(), device_type: DeviceType::Buttplug, connected: true }]);
    assert!(!reg.is_lovense_connected());
    reg.add_lovense_device("10.0.0.2", 20010, "  Lush \n");
    assert!(reg.is_lovense_connected());
    let ds = reg.get_devices();
    assert_eq!(ds.len(), 2);
    assert_eq!(ds[1].id, 1);
    assert_eq!(ds[1].name, "Lush");
    assert_eq!(ds[1].device_type, DeviceType::Lovense);
    assert_eq!(reg.remove_lovense_device("lovense_10_0_0_3"), Err(DeviceError::NotFound));
    assert_eq!(reg.remove_lovense_device("lovense_10_0_0_2"), Ok(()));
    assert_eq!(reg.get_devices().len(), 1);
    assert_eq!(reg.get_devices()[0].name, "Hush");
    assert!(!reg.is_lovense_connected());
}

#[test]
fn same_address_replaces_the_toy() {
    let mut reg = DeviceRegistry::new();
    reg.add_lovense_device("10.0.0.2", 20010, "Lush");
    reg.add_lovense_device("10.0.0.2", 20011, "Edge");
    assert_eq!(reg.get_devices().len(), 2);
    assert_eq!(reg.remove_lovense_device("lovense_10_0_0_2"), Ok(()));
    assert!(!reg.is_lovense_connected());
    assert_eq!(reg.get_devices().len(), 1);
    assert_eq!(reg.get_devices()[0].name, "Lush");
}

#[test]
fn device_records_hold_their_fields() {
    let r = DeviceRecord {
        id: "3".to_string(),
        name: "Lush".to_string(),
        device_type: "Buttplug".to_string(),
        last_seen: "2024-01-01T00:00:00+00:00".to_string(),
    };
    assert_eq!(r.device_type, "Buttplug");
}
