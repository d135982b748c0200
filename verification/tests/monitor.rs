use haraltr::config::{AddressTypeConfig, BluetoothConfig, Config, DaemonMode, DeviceEntry, DisconnectActionConfig};
use haraltr::mac::Mac;
use haraltr::monitor::{device_state, devices_to_monitor, process_poll, LockCoordinator, SessionCommand};
use haraltr::proximity::{Action, Phase};
use haraltr::status::ProximityPhase;

fn entry(uid: u32, mac: &str) -> DeviceEntry {
    DeviceEntry { uid, target_mac: mac.to_string(), address_type: AddressTypeConfig::BrEdr, ..Default::default() }
}

fn bt() -> BluetoothConfig {
    BluetoothConfig {
        adapter_index: 0,
        address_type: AddressTypeConfig::BrEdr,
        poll_interval_ms: 1000,
        disconnect_poll_interval_ms: 5000,
    }
}

fn mac(s: &str) -> Mac {
    s.parse().unwrap()
}

#[test]
fn monitors_the_users_valid_devices_once_each() {
    let mut c = Config::default();
    c.devices.push(entry(1000, "AA:AA:AA:AA:AA:AA"));
    c.devices.push(entry(1001, "BB:BB:BB:BB:BB:BB"));
    c.devices.push(entry(1000, "not-a-mac"));
    c.devices.push(entry(1000, "aa-aa-aa-aa-aa-aa"));
    c.devices.push(entry(1000, "CC:CC:CC:CC:CC:CC"));
    let plan = devices_to_monitor(&c, 1000);
    assert_eq!(plan.len(), 2);
    assert_eq!(plan[0].mac, mac("AA:AA:AA:AA:AA:AA"));
    assert_eq!(plan[1].mac, mac("CC:CC:CC:CC:CC:CC"));
    assert_eq!(plan[0].bluetooth.poll_interval_ms, 1000);
    assert!(devices_to_monitor(&c, 7).is_empty());
}

#[test]
fn device_state_follows_the_disconnect_setting() {
    let mut prox = Config::default().proximity_for_device(&entry(1, "AA:AA:AA:AA:AA:AA"));
    prox.disconnect_action = DisconnectActionConfig::Lock;
    let s = device_state(&prox);
    assert_eq!(s.disconnect_action, Action::Lock);
    assert!(matches!(s.phase, Phase::Near { consecutive_far: 0 }));
    prox.disconnect_action = DisconnectActionConfig::Nothing;
    assert_eq!(device_state(&prox).disconnect_action, Action::Nothing);
}

#[test]
fn lost_connection_slows_polling_and_coming_back_restores_it() {
    let mut prox = Config::default().proximity_for_device(&entry(1, "AA:AA:AA:AA:AA:AA"));
    prox.disconnect_action = DisconnectActionConfig::Lock;
    let mut s = device_state(&prox);
    let target = "AA:AA:AA:AA:AA:AA".to_string();
    let (report, next, action) = process_poll(&mut s, &target, None, &bt());
    assert_eq!(action, Some(Action::Lock));
    assert_eq!(report.phase, ProximityPhase::Disconnected);
    assert!(!report.connected);
    assert_eq!(report.rpl, None);
    assert_eq!(next, Some(5000));
    let (_, next, action) = process_poll(&mut s, &target, None, &bt());
    assert_eq!(next, None);
    assert_eq!(action, None);
    let (report, next, action) = process_poll(&mut s, &target, Some((5.0f64.to_bits(), 7.0f64.to_bits())), &bt());
    assert_eq!(report.phase, ProximityPhase::Far);
    assert!(report.connected);
    assert_eq!(report.rpl, Some(5.0f64.to_bits()));
    assert_eq!(report.raw_rpl, Some(7.0f64.to_bits()));
    assert_eq!(report.target_mac, target);
    assert_eq!(next, Some(1000));
    assert_eq!(action, None);
}

#[test]
fn raw_path_loss_is_tx_power_less_rssi() {
    assert_eq!(haraltr::monitor::raw_path_loss(-60, 4), 64);
    assert_eq!(haraltr::monitor::raw_path_loss(127, -128), -255);
    assert_eq!(haraltr::monitor::raw_path_loss(-128, 127), 255);
}

#[test]
fn session_locks_when_no_device_wants_it_unlocked() {
    let mut c = Config::default();
    c.devices.push(entry(1000, "AA:AA:AA:AA:AA:AA"));
    c.devices.push(entry(1000, "BB:BB:BB:BB:BB:BB"));
    let plan = devices_to_monitor(&c, 1000);
    let mut coord = LockCoordinator::new(&plan, DaemonMode::Both);
    assert_eq!(coord.on_action(mac("AA:AA:AA:AA:AA:AA"), Action::Lock), SessionCommand::Nothing);
    assert_eq!(coord.on_action(mac("BB:BB:BB:BB:BB:BB"), Action::Lock), SessionCommand::Lock);
    assert_eq!(coord.on_action(mac("BB:BB:BB:BB:BB:BB"), Action::Lock), SessionCommand::Nothing);
    assert_eq!(coord.on_action(mac("AA:AA:AA:AA:AA:AA"), Action::Unlock), SessionCommand::Unlock);
    assert_eq!(coord.on_action(mac("BB:BB:BB:BB:BB:BB"), Action::Unlock), SessionCommand::Nothing);
}

#[test]
fn pam_only_mode_never_touches_the_session() {
    let mut c = Config::default();
    c.devices.push(entry(1000, "AA:AA:AA:AA:AA:AA"));
    let plan = devices_to_monitor(&c, 1000);
    let mut coord = LockCoordinator::new(&plan, DaemonMode::PamOnly);
    assert_eq!(coord.on_action(mac("AA:AA:AA:AA:AA:AA"), Action::Lock), SessionCommand::Nothing);
    assert_eq!(coord.on_action(mac("AA:AA:AA:AA:AA:AA"), Action::Unlock), SessionCommand::Nothing);
}
