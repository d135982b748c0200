use haraltr::config::{
    AddressTypeConfig, BluetoothOverrides, Config, DeviceEntry, ProximityOverrides, ValidationError,
};
use haraltr::devices::{
    accept_config, add_device, remove_device, update_device, DeviceEditError, DeviceRequest,
    UpdateDeviceRequest,
};
use haraltr::seat::NO_ACTIVE_UID;

fn add_request(mac: &str) -> DeviceRequest {
    DeviceRequest {
        target_mac: mac.to_string(),
        name: None,
        bluetooth: BluetoothOverrides::default(),
        proximity: ProximityOverrides::default(),
    }
}

fn config_with_device(mac: &str) -> Config {
    let mut c = Config::default();
    c.devices.push(DeviceEntry { uid: 1000, target_mac: mac.to_string(), ..Default::default() });
    c
}

#[test]
fn add_device_valid_mac() {
    let c = add_device(Config::default(), add_request("AA:BB:CC:DD:EE:FF")).unwrap();
    assert_eq!(c.devices.len(), 1);
    assert_eq!(c.devices[0].target_mac, "AA:BB:CC:DD:EE:FF");
    assert_eq!(c.devices[0].uid, NO_ACTIVE_UID);
    assert_eq!(c.devices[0].address_type, AddressTypeConfig::BrEdr);
}

#[test]
fn add_device_duplicate_mac_returns_409() {
    let c = config_with_device("AA:BB:CC:DD:EE:FF");
    assert_eq!(
        add_device(c, add_request("AA:BB:CC:DD:EE:FF")).err(),
        Some(DeviceEditError::AlreadyExists)
    );
}

#[test]
fn add_device_invalid_mac_returns_400() {
    assert_eq!(
        add_device(Config::default(), add_request("not-a-mac")).err(),
        Some(DeviceEditError::InvalidRequest(ValidationError::InvalidMac))
    );
}

#[test]
fn add_device_with_out_of_range_override_is_refused() {
    let mut req = add_request("AA:BB:CC:DD:EE:FF");
    req.proximity.lock_count = Some(0);
    assert_eq!(
        add_device(Config::default(), req).err(),
        Some(DeviceEditError::InvalidRequest(ValidationError::OutOfRange))
    );
}

#[test]
fn add_device_same_address_other_spelling_fails_validation() {
    let c = config_with_device("AA:BB:CC:DD:EE:FF");
    assert_eq!(
        add_device(c, add_request("aa-bb-cc-dd-ee-ff")).err(),
        Some(DeviceEditError::InvalidConfig(ValidationError::DuplicateMac))
    );
}

#[test]
fn remove_device_removes_from_list() {
    let c = config_with_device("AA:BB:CC:DD:EE:FF");
    let c = remove_device(c, "AA:BB:CC:DD:EE:FF").unwrap();
    assert!(c.devices.is_empty());
}

#[test]
fn remove_device_not_found() {
    let c = config_with_device("AA:BB:CC:DD:EE:FF");
    assert_eq!(remove_device(c, "11:22:33:44:55:66").err(), Some(DeviceEditError::NotFound));
}

#[test]
fn add_then_remove_gives_the_devices_back() {
    let c = config_with_device("11:22:33:44:55:66");
    let added = add_device(c, add_request("AA:BB:CC:DD:EE:FF")).unwrap();
    assert_eq!(added.devices.len(), 2);
    let removed = remove_device(added, "AA:BB:CC:DD:EE:FF").unwrap();
    assert_eq!(removed.devices.len(), 1);
    assert_eq!(removed.devices[0].target_mac, "11:22:33:44:55:66");
    assert_eq!(removed.devices[0].uid, 1000);
}

#[test]
fn update_device_overrides() {
    let c = config_with_device("AA:BB:CC:DD:EE:FF");
    let req = UpdateDeviceRequest {
        target_mac: "AA:BB:CC:DD:EE:FF".to_string(),
        bluetooth: BluetoothOverrides::default(),
        proximity: ProximityOverrides { rpl_threshold: Some(20.0f64.to_bits()), ..Default::default() },
    };
    let c = update_device(c, req).unwrap();
    assert_eq!(c.devices[0].proximity.rpl_threshold.map(f64::from_bits), Some(20.0));
    assert_eq!(c.devices[0].uid, 1000);
}

#[test]
fn update_device_not_found_returns_404() {
    let req = UpdateDeviceRequest {
        target_mac: "AA:BB:CC:DD:EE:FF".to_string(),
        bluetooth: BluetoothOverrides::default(),
        proximity: ProximityOverrides { rpl_threshold: Some(20.0f64.to_bits()), ..Default::default() },
    };
    assert_eq!(update_device(Config::default(), req).err(), Some(DeviceEditError::NotFound));
}

#[test]
fn put_config_preserves_password_hash() {
    let mut current = Config::default();
    current.web.password_hash = Some("$argon2id$secret".to_string());
    let mut new_config = Config::default();
    new_config.br_edr.rpl_threshold = 25.0f64.to_bits();
    let (c, changed) = accept_config(&current, new_config).unwrap();
    assert_eq!(c.web.password_hash.as_deref(), Some("$argon2id$secret"));
    assert_eq!(f64::from_bits(c.br_edr.rpl_threshold), 25.0);
    assert!(!changed);
}

#[test]
fn put_config_invalid_port_returns_400() {
    let mut new_config = Config::default();
    new_config.web.port = 0;
    assert_eq!(accept_config(&Config::default(), new_config).err(), Some(ValidationError::OutOfRange));
}

#[test]
fn accepting_a_config_with_other_devices_reports_a_change() {
    let current = Config::default();
    let new_config = config_with_device("AA:BB:CC:DD:EE:FF");
    let (_, changed) = accept_config(&current, new_config).unwrap();
    assert!(changed);
}
