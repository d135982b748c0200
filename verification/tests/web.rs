use haraltr::assets::asset_path;
use haraltr::bluez::{describe_bt_device, device_listing, BtDevice, DeviceProps};
use haraltr::config::{AddressTypeConfig, Config, DeviceEntry};
use haraltr::seat::{session_action, watched_uid, SeatSearch, SearchStep, SessionAction, SessionEntry, NO_ACTIVE_UID};
use haraltr::sorting::{bytes_lt, stable_order};
use haraltr::string_map::StringMap;

#[test]
fn asset_names() {
    assert_eq!(asset_path("/"), "index.html");
    assert_eq!(asset_path(""), "index.html");
    assert_eq!(asset_path("/login"), "login.html");
    assert_eq!(asset_path("//login"), "login.html");
    assert_eq!(asset_path("/app.js"), "app.js");
    assert_eq!(asset_path("/css/site.css"), "css/site.css");
    assert_eq!(asset_path("/login/x"), "login/x");
}

fn props(address: Option<&str>, has_class: bool, address_type: Option<&str>, alias: Option<&str>) -> DeviceProps {
    DeviceProps {
        address: address.map(|s| s.to_string()),
        has_class,
        address_type: address_type.map(|s| s.to_string()),
        alias: alias.map(|s| s.to_string()),
        connected: Some(true),
        paired: None,
    }
}

#[test]
fn bluez_objects_become_devices() {
    let d = describe_bt_device("/org/bluez/hci0/dev_AA_BB", &props(Some("AA:BB"), true, None, Some("Phone"))).unwrap();
    assert_eq!(d.mac, "AA:BB");
    assert_eq!(d.name, "Phone");
    assert!(d.connected);
    assert!(!d.paired);
    assert_eq!(d.address_type, AddressTypeConfig::BrEdr);
    let d = describe_bt_device("/org/bluez/hci0/dev_X", &props(Some("X"), false, Some("static"), None)).unwrap();
    assert_eq!(d.address_type, AddressTypeConfig::LeRandom);
    assert_eq!(d.name, "X");
    let d = describe_bt_device("/org/bluez/hci0/dev_X", &props(Some("X"), false, Some("public"), None)).unwrap();
    assert_eq!(d.address_type, AddressTypeConfig::LePublic);
    assert!(describe_bt_device("/org/bluez/hci0", &props(Some("X"), true, None, None)).is_none());
    assert!(describe_bt_device("/org/bluez/hci0/dev_X", &props(None, true, None, None)).is_none());
    assert!(describe_bt_device("/org/bluez/hci0/dev_X", &props(Some("X"), false, Some("odd"), None)).is_none());
    assert!(describe_bt_device("/org/bluez/hci0/dev_X", &props(Some("X"), false, None, None)).is_none());
}

fn bt(mac: &str, name: &str) -> BtDevice {
    BtDevice { mac: mac.to_string(), name: name.to_string(), connected: false, paired: true, address_type: AddressTypeConfig::BrEdr }
}

#[test]
fn listing_is_sorted_by_lower_case_name_and_marks_monitored_devices() {
    let mut c = Config::default();
    c.devices.push(DeviceEntry { uid: 1, target_mac: "M2".to_string(), ..Default::default() });
    let devices = vec![bt("M1", "Zeta"), bt("M2", "Alpha"), bt("M3", "beta"), bt("M4", "alpha")];
    let l = device_listing(&devices, &c);
    let macs: Vec<&str> = l.iter().map(|d| d.device.mac.as_str()).collect();
    assert_eq!(macs, vec!["M2", "M4", "M3", "M1"]);
    assert_eq!(l[3].device.name, "Zeta");
    assert!(l[0].monitored);
    assert!(l[0].overrides.is_some());
    assert!(!l[1].monitored);
    assert!(l[1].overrides.is_none());
}

#[test]
fn stable_order_sorts_bytes_and_keeps_ties_in_place() {
    let keys = vec![b"b".to_vec(), b"a".to_vec(), b"b".to_vec(), b"".to_vec(), b"ab".to_vec()];
    assert_eq!(stable_order(&keys), vec![3, 1, 4, 0, 2]);
    assert!(bytes_lt(b"a", b"ab"));
    assert!(bytes_lt(b"", b"a"));
    assert!(!bytes_lt(b"b", b"ab"));
    assert!(!bytes_lt(b"x", b"x"));
}

#[test]
fn string_map_behaves_as_a_map() {
    let mut m: StringMap<u32> = StringMap::new();
    m.insert("a".to_string(), 1);
    m.insert("b".to_string(), 2);
    m.insert("a".to_string(), 3);
    assert_eq!(m.len(), 2);
    assert_eq!(m.get("a"), Some(&3));
    assert!(m.contains("b"));
    m.remove("b");
    assert!(!m.contains("b"));
    assert_eq!(m.get("b"), None);
    m.clear();
    assert_eq!(m.len(), 0);
}

fn session(seat: &str, uid: u32) -> SessionEntry {
    SessionEntry { seat: seat.to_string(), uid }
}

#[test]
fn seat_search_finds_the_first_active_seat0_session() {
    let sessions = vec![session("seat1", 5), session("seat0", 1000), session("", 7), session("seat0", 1001)];
    let step = SeatSearch::start(&sessions);
    assert_eq!(step, SearchStep::Ask(1));
    let step = SeatSearch::on_reply(&sessions, 1, false);
    assert_eq!(step, SearchStep::Ask(3));
    assert_eq!(SeatSearch::on_reply(&sessions, 3, true), SearchStep::Found(1001));
    assert_eq!(SeatSearch::on_reply(&sessions, 3, false), SearchStep::NoActive);
    assert_eq!(SeatSearch::start(&vec![session("seat1", 1)]), SearchStep::NoActive);
}

#[test]
fn watcher_and_lock_decisions() {
    assert_eq!(watched_uid(SearchStep::Found(1000)), 1000);
    assert_eq!(watched_uid(SearchStep::NoActive), NO_ACTIVE_UID);
    assert_eq!(NO_ACTIVE_UID, u32::MAX);
    assert_eq!(session_action(SearchStep::Found(1000), 1000), SessionAction::Act);
    assert_eq!(session_action(SearchStep::Found(1001), 1000), SessionAction::OtherUser);
    assert_eq!(session_action(SearchStep::NoActive, 1000), SessionAction::NoSession);
}
