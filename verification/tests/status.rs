use haraltr::config::{AddressTypeConfig, Config, DeviceEntry};
use haraltr::protocol::{encode_query, ProximityStatus, QueryResponse};
use haraltr::proximity::{Action, Phase, State};
use haraltr::status::{
    answer_query, phase_of, user_device_macs, user_status, DaemonStatus, DeviceStatus, ProximityPhase,
};

fn status(phase: ProximityPhase) -> DeviceStatus {
    DeviceStatus { rpl: None, raw_rpl: None, phase, connected: phase != ProximityPhase::Disconnected }
}

fn config_with(devices: &[(u32, &str)]) -> Config {
    let mut c = Config::default();
    for (uid, mac) in devices {
        c.devices.push(DeviceEntry {
            uid: *uid,
            target_mac: mac.to_string(),
            address_type: AddressTypeConfig::BrEdr,
            ..Default::default()
        });
    }
    c
}

#[test]
fn proximity_phase_display() {
    assert_eq!(format!("{}", ProximityPhase::Near.to_string()), "near");
    assert_eq!(format!("{}", ProximityPhase::Far.to_string()), "far");
    assert_eq!(format!("{}", ProximityPhase::Disconnected.to_string()), "disconnected");
}

#[test]
fn phase_of_state_machine() {
    assert_eq!(phase_of(&State::new(Action::Lock)), ProximityPhase::Near);
    let far = State { phase: Phase::Far { consecutive_near: 2 }, disconnect_action: Action::Lock };
    assert_eq!(phase_of(&far), ProximityPhase::Far);
    let gone = State { phase: Phase::Disconnected, disconnect_action: Action::Lock };
    assert_eq!(phase_of(&gone), ProximityPhase::Disconnected);
}

#[test]
fn user_macs_are_those_of_the_user_in_order() {
    let c = config_with(&[(1000, "AA:AA:AA:AA:AA:AA"), (1001, "BB:BB:BB:BB:BB:BB"), (1000, "CC:CC:CC:CC:CC:CC")]);
    assert_eq!(user_device_macs(&c, 1000), vec!["AA:AA:AA:AA:AA:AA".to_string(), "CC:CC:CC:CC:CC:CC".to_string()]);
    assert!(user_device_macs(&c, 42).is_empty());
}

#[test]
fn near_wins_over_far_which_wins_over_disconnected() {
    let mut st = DaemonStatus::new(true);
    st.update_device("A".to_string(), status(ProximityPhase::Disconnected), false);
    st.update_device("B".to_string(), status(ProximityPhase::Far), false);
    let a = vec!["A".to_string()];
    let ab = vec!["A".to_string(), "B".to_string()];
    assert_eq!(user_status(&st, &a), ProximityStatus::Disconnected);
    assert_eq!(user_status(&st, &ab), ProximityStatus::Far);
    assert!(st.is_any_far(&ab));
    assert!(!st.is_any_near(&ab));
    st.update_device("A".to_string(), status(ProximityPhase::Near), true);
    assert_eq!(user_status(&st, &ab), ProximityStatus::Near);
    assert!(st.is_any_near(&a));
    assert_eq!(user_status(&st, &[]), ProximityStatus::Unknown);
    let unknown = vec!["Z".to_string()];
    assert_eq!(user_status(&st, &unknown), ProximityStatus::Disconnected);
}

#[test]
fn reset_forgets_every_device() {
    let mut st = DaemonStatus::new(false);
    st.update_device("A".to_string(), status(ProximityPhase::Near), true);
    st.reset_daemon_state();
    assert!(st.any_near);
    assert_eq!(st.devices.len(), 0);
    assert!(!st.is_any_near(&["A".to_string()]));
}

#[test]
fn query_from_root_is_answered_with_the_users_status() {
    let c = config_with(&[(1000, "AA:AA:AA:AA:AA:AA")]);
    let mut st = DaemonStatus::new(true);
    st.update_device("AA:AA:AA:AA:AA:AA".to_string(), status(ProximityPhase::Near), true);
    let r = answer_query(0, &encode_query(1000), &c, &st, 1711000000);
    assert_eq!(r, Some(QueryResponse { status: 0x01, rpl: 0, timestamp_secs: 1711000000 }));
    let r = answer_query(0, &encode_query(1001), &c, &st, 5);
    assert_eq!(r, Some(QueryResponse { status: 0xFF, rpl: 0, timestamp_secs: 5 }));
}

#[test]
fn query_from_other_user_or_of_unknown_kind_gets_no_answer() {
    let c = config_with(&[(1000, "AA:AA:AA:AA:AA:AA")]);
    let st = DaemonStatus::new(true);
    assert_eq!(answer_query(1000, &encode_query(1000), &c, &st, 1), None);
    assert_eq!(answer_query(0, &[0x07, 0xE8, 0x03, 0, 0], &c, &st, 1), None);
}
