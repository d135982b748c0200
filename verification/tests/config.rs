use haraltr::config::{ConfigOwner, WebStart};
use haraltr::config::{
    validate_mac, AddressTypeConfig, BluetoothOverrides, BrEdrDefaults, Config, DaemonMode,
    DeviceEntry, DisconnectActionConfig, LeDefaults, ProximityConfig, ProximityOverrides,
    ValidationError, WakeConfig,
};

fn f(x: f64) -> u64 {
    x.to_bits()
}

fn device(uid: u32, mac: &str, address_type: AddressTypeConfig) -> DeviceEntry {
    DeviceEntry { uid, target_mac: mac.to_string(), address_type, ..Default::default() }
}

#[test]
fn empty_toml_gives_all_defaults() {
    let config = Config::default();
    let br_edr = BrEdrDefaults::default();
    let le = LeDefaults::default();
    assert_eq!(config.adapter_index, 0);
    assert_eq!(config.br_edr.poll_interval_ms, br_edr.poll_interval_ms);
    assert_eq!(config.br_edr.rpl_threshold, br_edr.rpl_threshold);
    assert_eq!(config.br_edr.lock_count, br_edr.lock_count);
    assert_eq!(config.br_edr.kalman_q, br_edr.kalman_q);
    assert_eq!(config.le.poll_interval_ms, le.poll_interval_ms);
    assert_eq!(config.le.rpl_threshold, le.rpl_threshold);
    assert_eq!(config.le.fallback_tx_power, le.fallback_tx_power);
    assert_eq!(config.wake.duration_secs, WakeConfig::default().duration_secs);
    assert!(config.devices.is_empty());
}

#[test]
fn default_values_are_the_documented_ones() {
    let br = BrEdrDefaults::default();
    assert_eq!(br.poll_interval_ms, 1000);
    assert_eq!(br.disconnect_poll_interval_ms, 5000);
    assert_eq!(f64::from_bits(br.rpl_threshold), 15.0);
    assert_eq!(br.lock_count, 4);
    assert_eq!(br.unlock_count, 4);
    assert_eq!(f64::from_bits(br.kalman_q), 0.1);
    assert_eq!(f64::from_bits(br.kalman_r), 3.0);
    assert_eq!(f64::from_bits(br.kalman_initial), 5.0);
    assert_eq!(br.disconnect_action, DisconnectActionConfig::Nothing);
    let le = LeDefaults::default();
    assert_eq!(f64::from_bits(le.rpl_threshold), 60.0);
    assert_eq!(le.lock_count, 8);
    assert_eq!(le.unlock_count, 8);
    assert_eq!(f64::from_bits(le.kalman_r), 8.0);
    assert_eq!(f64::from_bits(le.kalman_initial), 40.0);
    assert_eq!(le.fallback_tx_power, 0);
    let config = Config::default();
    assert_eq!(config.daemon.mode, DaemonMode::Both);
    assert_eq!(config.wake.mouse_interval_ms, 250);
    assert_eq!(config.wake.enter_interval_ms, 3000);
    assert!(config.validate().is_ok());
}

#[test]
fn web_config_defaults_when_missing() {
    let config = Config::default();
    assert!(config.web.enabled);
    assert_eq!(config.web.port, 15999);
    assert!(config.web.password_hash.is_none());
}

#[test]
fn device_address_type_defaults_to_br_edr() {
    let d = DeviceEntry { uid: 1000, target_mac: "AA:BB:CC:DD:EE:FF".to_string(), ..Default::default() };
    assert_eq!(d.address_type, AddressTypeConfig::BrEdr);
}

#[test]
fn br_edr_device_resolves_against_br_edr_defaults() {
    let mut config = Config::default();
    config.br_edr.poll_interval_ms = 500;
    config.br_edr.rpl_threshold = f(20.0);
    config.devices.push(device(1000, "AA:BB:CC:DD:EE:FF", AddressTypeConfig::BrEdr));

    let device = &config.devices[0];
    let bt = config.bluetooth_for_device(device);
    assert_eq!(bt.poll_interval_ms, 500);
    assert_eq!(bt.address_type, AddressTypeConfig::BrEdr);

    let prox = config.proximity_for_device(device);
    assert_eq!(f64::from_bits(prox.rpl_threshold), 20.0);
    assert_eq!(prox.fallback_tx_power, 0);
}

#[test]
fn le_device_resolves_against_le_defaults() {
    let mut config = Config::default();
    config.le.poll_interval_ms = 4000;
    config.le.rpl_threshold = f(65.0);
    config.devices.push(device(1000, "AA:BB:CC:DD:EE:FF", AddressTypeConfig::LePublic));

    let device = &config.devices[0];
    let bt = config.bluetooth_for_device(device);
    assert_eq!(bt.poll_interval_ms, 4000);
    assert_eq!(bt.address_type, AddressTypeConfig::LePublic);

    let prox = config.proximity_for_device(device);
    assert_eq!(f64::from_bits(prox.rpl_threshold), 65.0);
    assert_eq!(prox.fallback_tx_power, 0);
}

#[test]
fn le_random_device_resolves_against_le_defaults() {
    let mut config = Config::default();
    config.devices.push(device(1000, "AA:BB:CC:DD:EE:FF", AddressTypeConfig::LeRandom));

    let device = &config.devices[0];
    let bt = config.bluetooth_for_device(device);
    assert_eq!(bt.address_type, AddressTypeConfig::LeRandom);
    assert_eq!(bt.poll_interval_ms, LeDefaults::default().poll_interval_ms);

    let prox = config.proximity_for_device(device);
    assert_eq!(prox.fallback_tx_power, 0);
}

#[test]
fn device_overrides_win_over_transport_defaults() {
    let mut config = Config::default();
    config.br_edr.rpl_threshold = f(15.0);
    config.br_edr.kalman_q = f(0.1);
    config.devices.push(DeviceEntry {
        uid: 1000,
        target_mac: "11:22:33:44:55:66".to_string(),
        address_type: AddressTypeConfig::BrEdr,
        name: Some("Phone".to_string()),
        bluetooth: BluetoothOverrides { adapter_index: Some(1), poll_interval_ms: Some(1000), ..Default::default() },
        proximity: ProximityOverrides { rpl_threshold: Some(f(13.0)), ..Default::default() },
    });

    let device = &config.devices[0];
    let bt = config.bluetooth_for_device(device);
    assert_eq!(bt.adapter_index, 1);
    assert_eq!(bt.poll_interval_ms, 1000);
    assert_eq!(bt.disconnect_poll_interval_ms, 5000);

    let prox = config.proximity_for_device(device);
    assert_eq!(f64::from_bits(prox.rpl_threshold), 13.0);
    assert_eq!(f64::from_bits(prox.kalman_q), 0.1);
}

#[test]
fn fallback_tx_power_device_override_wins() {
    let mut config = Config::default();
    let mut d = device(1000, "AA:BB:CC:DD:EE:FF", AddressTypeConfig::LePublic);
    d.proximity.fallback_tx_power = Some(4);
    config.devices.push(d);

    let prox = config.proximity_for_device(&config.devices[0]);
    assert_eq!(prox.fallback_tx_power, 4);
}

#[test]
fn fallback_tx_power_zero_for_br_edr_without_override() {
    let mut config = Config::default();
    config.le.fallback_tx_power = 7;
    config.devices.push(device(1000, "AA:BB:CC:DD:EE:FF", AddressTypeConfig::BrEdr));

    let prox = config.proximity_for_device(&config.devices[0]);
    assert_eq!(prox.fallback_tx_power, 0);
}

#[test]
fn le_device_takes_the_le_fallback_tx_power() {
    let mut config = Config::default();
    config.le.fallback_tx_power = -7;
    config.devices.push(device(1000, "AA:BB:CC:DD:EE:FF", AddressTypeConfig::LeRandom));
    let prox = config.proximity_for_device(&config.devices[0]);
    assert_eq!(prox.fallback_tx_power, -7);
}

#[test]
fn device_no_overrides_uses_transport_defaults() {
    let mut config = Config::default();
    config.br_edr.poll_interval_ms = 2000;
    config.br_edr.rpl_threshold = f(15.0);
    config.devices.push(DeviceEntry { uid: 1000, target_mac: "AA:BB:CC:DD:EE:FF".to_string(), ..Default::default() });

    let device = &config.devices[0];
    let bt = config.bluetooth_for_device(device);
    assert_eq!(bt.adapter_index, 0);
    assert_eq!(bt.poll_interval_ms, 2000);
    let prox = config.proximity_for_device(device);
    assert_eq!(f64::from_bits(prox.rpl_threshold), 15.0);
}

#[test]
fn every_proximity_field_can_be_overridden() {
    let mut config = Config::default();
    config.adapter_index = 2;
    let mut d = device(1, "AA:BB:CC:DD:EE:FF", AddressTypeConfig::LePublic);
    d.bluetooth.disconnect_poll_interval_ms = Some(777);
    d.proximity = ProximityOverrides {
        rpl_threshold: Some(f(1.5)),
        lock_count: Some(2),
        unlock_count: Some(3),
        kalman_q: Some(f(0.5)),
        kalman_r: Some(f(2.5)),
        kalman_initial: Some(f(9.0)),
        disconnect_action: Some(DisconnectActionConfig::Lock),
        fallback_tx_power: Some(-3),
    };
    config.devices.push(d);
    let bt = config.bluetooth_for_device(&config.devices[0]);
    assert_eq!(bt.adapter_index, 2);
    assert_eq!(bt.poll_interval_ms, 1000);
    assert_eq!(bt.disconnect_poll_interval_ms, 777);
    let prox = config.proximity_for_device(&config.devices[0]);
    assert_eq!(
        prox,
        ProximityConfig {
            rpl_threshold: f(1.5),
            lock_count: 2,
            unlock_count: 3,
            kalman_q: f(0.5),
            kalman_r: f(2.5),
            kalman_initial: f(9.0),
            disconnect_action: DisconnectActionConfig::Lock,
            fallback_tx_power: -3,
        }
    );
}

#[test]
fn validation_invalid_mac() {
    let mut config = Config::default();
    config.devices.push(DeviceEntry { target_mac: "invalid".to_string(), ..Default::default() });
    assert!(config.validate().is_err());
    assert_eq!(config.validate(), Err(ValidationError::InvalidMac));
}

#[test]
fn validation_duplicate_mac() {
    let mut config = Config::default();
    config.devices.push(DeviceEntry { target_mac: "AA:BB:CC:DD:EE:FF".to_string(), ..Default::default() });
    config.devices.push(DeviceEntry { target_mac: "AA:BB:CC:DD:EE:FF".to_string(), ..Default::default() });
    assert!(config.validate().is_err());
    assert_eq!(config.validate(), Err(ValidationError::DuplicateMac));
}

#[test]
fn duplicate_mac_in_another_spelling_is_refused() {
    let mut config = Config::default();
    config.devices.push(DeviceEntry { target_mac: "AA:BB:CC:DD:EE:FF".to_string(), ..Default::default() });
    config.devices.push(DeviceEntry { target_mac: "aa-bb-cc-dd-ee-ff".to_string(), ..Default::default() });
    assert_eq!(config.validate(), Err(ValidationError::DuplicateMac));
}

#[test]
fn validation_web_port_zero() {
    let mut config = Config::default();
    config.web.port = 0;
    assert!(config.validate().is_err());
    assert_eq!(config.validate(), Err(ValidationError::OutOfRange));
}

#[test]
fn out_of_range_values_are_refused() {
    let mut c = Config::default();
    c.br_edr.lock_count = 0;
    assert_eq!(c.validate(), Err(ValidationError::OutOfRange));
    let mut c = Config::default();
    c.le.kalman_q = f(0.0);
    assert_eq!(c.validate(), Err(ValidationError::OutOfRange));
    let mut c = Config::default();
    c.br_edr.kalman_r = f(f64::NAN);
    assert_eq!(c.validate(), Err(ValidationError::OutOfRange));
    let mut c = Config::default();
    c.wake.duration_secs = 0;
    assert_eq!(c.validate(), Err(ValidationError::OutOfRange));
    let mut c = Config::default();
    let mut d = device(1, "AA:BB:CC:DD:EE:FF", AddressTypeConfig::BrEdr);
    d.proximity.unlock_count = Some(0);
    c.devices.push(d);
    assert_eq!(c.validate(), Err(ValidationError::OutOfRange));
    let mut c = Config::default();
    let mut d = device(1, "AA:BB:CC:DD:EE:FF", AddressTypeConfig::BrEdr);
    d.bluetooth.poll_interval_ms = Some(0);
    c.devices.push(d);
    assert_eq!(c.validate(), Err(ValidationError::OutOfRange));
}

#[test]
fn valid_mac_addresses() {
    assert!(validate_mac("AA:BB:CC:DD:EE:FF").is_ok());
    assert!(validate_mac("00:11:22:33:44:55").is_ok());
    assert!(validate_mac("aa:bb:cc:dd:ee:ff").is_ok());
}

#[test]
fn invalid_mac_addresses() {
    assert!(validate_mac("not-a-mac").is_err());
    assert!(validate_mac("AA:BB:CC:DD:EE").is_err());
    assert!(validate_mac("AA:BB:CC:DD:EE:GG").is_err());
    assert!(validate_mac("AABB.CCDD.EEFF").is_err());
    assert!(validate_mac("").is_err());
}

#[test]
fn br_edr_is_default() {
    let br_edr_defaults = BrEdrDefaults::default();
    let proximity_defaults = ProximityConfig::default();

    assert_eq!(proximity_defaults.rpl_threshold, br_edr_defaults.rpl_threshold);
    assert_eq!(proximity_defaults.lock_count, br_edr_defaults.lock_count);
    assert_eq!(proximity_defaults.unlock_count, br_edr_defaults.unlock_count);
    assert_eq!(proximity_defaults.kalman_q, br_edr_defaults.kalman_q);
    assert_eq!(proximity_defaults.kalman_r, br_edr_defaults.kalman_r);
    assert_eq!(proximity_defaults.kalman_initial, br_edr_defaults.kalman_initial);
    assert_eq!(proximity_defaults.disconnect_action, br_edr_defaults.disconnect_action);
}

#[test]
fn web_server_starts_only_when_enabled_with_password_and_root_owner() {
    let mut web = Config::default().web;
    assert_eq!(web.server_start(ConfigOwner::NotChecked), WebStart::NoPassword);
    web.password_hash = Some("$argon2id$x".to_string());
    assert_eq!(web.server_start(ConfigOwner::NotChecked), WebStart::Serve);
    assert_eq!(web.server_start(ConfigOwner::Uid(0)), WebStart::Serve);
    assert_eq!(web.server_start(ConfigOwner::Uid(1000)), WebStart::NotRootOwned);
    assert_eq!(web.server_start(ConfigOwner::Unknown), WebStart::OwnerUnknown);
    web.enabled = false;
    assert_eq!(web.server_start(ConfigOwner::Uid(0)), WebStart::Disabled);
}
