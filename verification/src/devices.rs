//! Edits of the device list made from the web UI: adding, removing and
//! re-tuning a monitored device, and accepting a whole new configuration.
//! Each edit yields the configuration to save, or why it is refused.

use vstd::prelude::*;
use vstd::string::StringSliceAdditionalSpecFns;
use crate::config::{
    validate_mac, AddressTypeConfig, BluetoothOverrides, Config, DeviceEntry, ProximityOverrides,
    ValidationError, check_with, utf8,
};
use crate::mac::mac_text_valid;
use crate::status::texts;
use crate::text::str_eq;
use crate::seat::NO_ACTIVE_UID;

verus! {

/// A device to add.
#[derive(Debug, Clone)]
pub struct DeviceRequest {
    pub target_mac: String,
    pub name: Option<String>,
    pub bluetooth: BluetoothOverrides,
    pub proximity: ProximityOverrides,
}

/// New overrides for a device.
#[derive(Debug, Clone)]
pub struct UpdateDeviceRequest {
    pub target_mac: String,
    pub bluetooth: BluetoothOverrides,
    pub proximity: ProximityOverrides,
}

/// Why an edit was refused.
#[derive(Debug, Clone, Copy, PartialEq, Eq, Structural)]
pub enum DeviceEditError {
    /// The request itself is invalid.
    InvalidRequest(ValidationError),
    /// A device with this exact `target_mac` text is configured already.
    AlreadyExists,
    /// No device has this `target_mac` text.
    NotFound,
    /// The edited configuration would be invalid.
    InvalidConfig(ValidationError),
}

/// The outcome of validating a request: overrides first, then the address.
pub open spec fn request_check(
    target_mac: Seq<char>,
    bluetooth: BluetoothOverrides,
    proximity: ProximityOverrides,
) -> Option<ValidationError> {
    if !(bluetooth.in_range() && proximity.in_range()) {
        Some(ValidationError::OutOfRange)
    } else if !mac_text_valid(utf8(target_mac)) {
        Some(ValidationError::InvalidMac)
    } else {
        None
    }
}

/// Some device's `target_mac` is exactly this text.
pub open spec fn has_mac_text(devices: Seq<DeviceEntry>, mac: Seq<char>) -> bool {
    exists|i: int| 0 <= i < devices.len() && #[trigger] devices[i].target_mac@ == mac
}

/// The devices whose `target_mac` is not exactly this text, in order.
pub open spec fn without_mac(devices: Seq<DeviceEntry>, mac: Seq<char>) -> Seq<DeviceEntry>
    decreases devices.len(),
{
    if devices.len() == 0 {
        Seq::empty()
    } else {
        let rest = without_mac(devices.drop_last(), mac);
        if devices.last().target_mac@ == mac {
            rest
        } else {
            rest.push(devices.last())
        }
    }
}

/// The entry that an add request creates.
pub open spec fn new_entry(req: DeviceRequest) -> DeviceEntry {
    DeviceEntry {
        uid: NO_ACTIVE_UID,
        target_mac: req.target_mac,
        address_type: AddressTypeConfig::BrEdr,
        name: req.name,
        bluetooth: req.bluetooth,
        proximity: req.proximity,
    }
}

/// The result of an edit that produced these devices: refused with the
/// first failing check, or the configuration with these devices, valid.
pub open spec fn edit_outcome(r: Result<Config, DeviceEditError>, old: Config, devices: Seq<DeviceEntry>) -> bool {
    match check_with(old, devices) {
        Some(e) => r == Err::<Config, DeviceEditError>(DeviceEditError::InvalidConfig(e)),
        None => r matches Ok(c) && same_settings(c, old) && c.devices@ == devices && c.valid(),
    }
}

/// Two configurations agree on everything but their devices.
pub open spec fn same_settings(a: Config, b: Config) -> bool {
    &&& a.daemon == b.daemon
    &&& a.adapter_index == b.adapter_index
    &&& a.br_edr == b.br_edr
    &&& a.le == b.le
    &&& a.wake == b.wake
    &&& a.web.enabled == b.web.enabled
    &&& a.web.port == b.web.port
    &&& a.web.password_hash == b.web.password_hash
}

fn check_request(target_mac: &String, bluetooth: &BluetoothOverrides, proximity: &ProximityOverrides) -> (r:
    Option<ValidationError>)
    ensures
        r == request_check(target_mac@, *bluetooth, *proximity),
{
    if !bluetooth.check_range() || !proximity.check_range() {
        return Some(ValidationError::OutOfRange);
    }
    match validate_mac(target_mac.as_str()) {
        Ok(()) => None,
        Err(e) => Some(e),
    }
}

fn check_config(c: &Config) -> (r: Option<ValidationError>)
    ensures
        r == check_with(*c, c.devices@),
{
    match c.validate() {
        Ok(()) => None,
        Err(e) => Some(e),
    }
}

/// The index of the first device whose `target_mac` is exactly `mac`.
fn position_of_mac(devices: &Vec<DeviceEntry>, mac: &str) -> (r: Option<usize>)
    ensures
        r matches Some(i) ==> i < devices@.len() && devices@[i as int].target_mac@ == mac@ && forall|j: int|
            0 <= j < i ==> devices@[j].target_mac@ != mac@,
        r is None ==> !has_mac_text(devices@, mac@),
{
    let n = devices.len();
    let mut i: usize = 0;
    while i < n
        invariant
            n == devices@.len(),
            0 <= i <= n,
            forall|j: int| 0 <= j < i ==> devices@[j].target_mac@ != mac@,
        decreases n - i,
    {
        if str_eq(devices[i].target_mac.as_str(), mac) {
            return Some(i);
        }
        i = i + 1;
    }
    None
}

/// Adds a device monitored for no user yet, with the classic transport.
pub fn add_device(config: Config, req: DeviceRequest) -> (r: Result<Config, DeviceEditError>)
    ensures
        match request_check(req.target_mac@, req.bluetooth, req.proximity) {
            Some(e) => r == Err::<Config, DeviceEditError>(DeviceEditError::InvalidRequest(e)),
            None => if has_mac_text(config.devices@, req.target_mac@) {
                r == Err::<Config, DeviceEditError>(DeviceEditError::AlreadyExists)
            } else {
                edit_outcome(r, config, config.devices@.push(new_entry(req)))
            },
        },
{
    if let Some(e) = check_request(&req.target_mac, &req.bluetooth, &req.proximity) {
        return Err(DeviceEditError::InvalidRequest(e));
    }
    if position_of_mac(&config.devices, req.target_mac.as_str()).is_some() {
        return Err(DeviceEditError::AlreadyExists);
    }
    let mut config = config;
    let ghost before = config;
    config.devices.push(
        DeviceEntry {
            uid: NO_ACTIVE_UID,
            target_mac: req.target_mac,
            address_type: AddressTypeConfig::BrEdr,
            name: req.name,
            bluetooth: req.bluetooth,
            proximity: req.proximity,
        },
    );
    match check_config(&config) {
        Some(e) => Err(DeviceEditError::InvalidConfig(e)),
        None => Ok(config),
    }
}

/// Removes every device whose `target_mac` is exactly `target_mac`.
pub fn remove_device(config: Config, target_mac: &str) -> (r: Result<Config, DeviceEditError>)
    ensures
        if !has_mac_text(config.devices@, target_mac@) {
            r == Err::<Config, DeviceEditError>(DeviceEditError::NotFound)
        } else {
            edit_outcome(r, config, without_mac(config.devices@, target_mac@))
        },
{
    let mut config = config;
    let n = config.devices.len();
    let mut kept: Vec<DeviceEntry> = Vec::new();
    let mut removed = false;
    let ghost devs = config.devices@;
    let mut old_devices: Vec<DeviceEntry> = Vec::new();
    std::mem::swap(&mut old_devices, &mut config.devices);
    let mut i: usize = 0;
    while i < n
        invariant
            old_devices@ == devs,
            n == devs.len(),
            0 <= i <= n,
            kept@ == without_mac(devs.take(i as int), target_mac@),
            removed == has_mac_text(devs.take(i as int), target_mac@),
        decreases n - i,
    {
        proof {
            assert(devs.take(i + 1).drop_last() =~= devs.take(i as int));
            assert(devs.take(i + 1).last() == devs[i as int]);
        }
        if str_eq(old_devices[i].target_mac.as_str(), target_mac) {
            removed = true;
            assert(devs.take(i + 1)[i as int].target_mac@ == target_mac@);
        } else {
            kept.push(old_devices[i].clone_entry());
            proof {
                if has_mac_text(devs.take(i + 1), target_mac@) {
                    let j = choose|j: int| 0 <= j < i + 1 && #[trigger] devs.take(i + 1)[j].target_mac@
                        == target_mac@;
                    assert(devs.take(i as int)[j].target_mac@ == target_mac@);
                }
            }
        }
        proof {
            if has_mac_text(devs.take(i as int), target_mac@) {
                let j = choose|j: int| 0 <= j < i && #[trigger] devs.take(i as int)[j].target_mac@ == target_mac@;
                assert(devs.take(i + 1)[j].target_mac@ == target_mac@);
            }
        }
        i = i + 1;
    }
    assert(devs.take(n as int) =~= devs);
    if !removed {
        return Err(DeviceEditError::NotFound);
    }
    config.devices = kept;
    match check_config(&config) {
        Some(e) => Err(DeviceEditError::InvalidConfig(e)),
        None => Ok(config),
    }
}

/// The devices with the first one whose `target_mac` is exactly `mac`
/// given new overrides.
pub open spec fn retuned(devices: Seq<DeviceEntry>, i: int, req: UpdateDeviceRequest) -> Seq<DeviceEntry> {
    devices.update(i, DeviceEntry { bluetooth: req.bluetooth, proximity: req.proximity, ..devices[i] })
}

/// The index of the first device whose `target_mac` is exactly the text.
pub open spec fn first_with_mac(devices: Seq<DeviceEntry>, mac: Seq<char>) -> int {
    choose|i: int|
        0 <= i < devices.len() && devices[i].target_mac@ == mac && forall|j: int|
            0 <= j < i ==> #[trigger] devices[j].target_mac@ != mac
}

/// Replaces the overrides of the first device whose `target_mac` is exactly
/// the request's.
pub fn update_device(config: Config, req: UpdateDeviceRequest) -> (r: Result<Config, DeviceEditError>)
    ensures
        match request_check(req.target_mac@, req.bluetooth, req.proximity) {
            Some(e) => r == Err::<Config, DeviceEditError>(DeviceEditError::InvalidRequest(e)),
            None => if !has_mac_text(config.devices@, req.target_mac@) {
                r == Err::<Config, DeviceEditError>(DeviceEditError::NotFound)
            } else {
                edit_outcome(
                    r,
                    config,
                    retuned(config.devices@, first_with_mac(config.devices@, req.target_mac@), req),
                )
            },
        },
{
    if let Some(e) = check_request(&req.target_mac, &req.bluetooth, &req.proximity) {
        return Err(DeviceEditError::InvalidRequest(e));
    }
    let i = match position_of_mac(&config.devices, req.target_mac.as_str()) {
        Some(i) => i,
        None => {
            return Err(DeviceEditError::NotFound);
        },
    };
    let ghost devs = config.devices@;
    proof {
        let k = first_with_mac(devs, req.target_mac@);
        assert(0 <= i < devs.len() && devs[i as int].target_mac@ == req.target_mac@ && forall|j: int|
            0 <= j < i ==> #[trigger] devs[j].target_mac@ != req.target_mac@);
        if k != i {
            if k < i {
                assert(devs[k].target_mac@ != req.target_mac@);
            } else {
                assert(devs[i as int].target_mac@ != req.target_mac@);
            }
        }
    }
    let mut config = config;
    let mut d = config.devices.remove(i);
    d.bluetooth = req.bluetooth;
    d.proximity = req.proximity;
    config.devices.insert(i, d);
    assert(config.devices@ =~= retuned(devs, i as int, req));
    match check_config(&config) {
        Some(e) => Err(DeviceEditError::InvalidConfig(e)),
        None => Ok(config),
    }
}

/// The `target_mac` texts of a device list, in order.
pub open spec fn mac_texts(devices: Seq<DeviceEntry>) -> Seq<Seq<char>> {
    devices.map_values(|d: DeviceEntry| d.target_mac@)
}

/// Accepts a whole new configuration from the web UI: it must be valid, it
/// keeps the current password hash, and the flag tells whether the list of
/// device addresses changed (which restarts the device monitors).
pub fn accept_config(current: &Config, new_config: Config) -> (r: Result<(Config, bool), ValidationError>)
    ensures
        match check_with(new_config, new_config.devices@) {
            Some(e) => r == Err::<(Config, bool), ValidationError>(e),
            None => r matches Ok((c, changed)) && c.valid() && c.devices@ == new_config.devices@
                && c.daemon == new_config.daemon && c.adapter_index == new_config.adapter_index
                && c.br_edr == new_config.br_edr && c.le == new_config.le && c.wake == new_config.wake
                && c.web.enabled == new_config.web.enabled && c.web.port == new_config.web.port
                && c.web.password_hash == current.web.password_hash
                && changed == (mac_texts(current.devices@) != mac_texts(new_config.devices@)),
        },
{
    if let Err(e) = new_config.validate() {
        return Err(e);
    }
    let mut c = new_config;
    c.web.password_hash = clone_opt_string(&current.web.password_hash);
    let changed = !same_mac_texts(&current.devices, &c.devices);
    Ok((c, changed))
}

fn clone_opt_string(s: &Option<String>) -> (r: Option<String>)
    ensures
        r == *s,
{
    match s {
        Some(x) => Some(x.clone()),
        None => None,
    }
}

fn same_mac_texts(a: &Vec<DeviceEntry>, b: &Vec<DeviceEntry>) -> (r: bool)
    ensures
        r == (mac_texts(a@) == mac_texts(b@)),
{
    if a.len() != b.len() {
        assert(mac_texts(a@).len() != mac_texts(b@).len());
        return false;
    }
    let n = a.len();
    let mut i: usize = 0;
    while i < n
        invariant
            n == a@.len(),
            n == b@.len(),
            0 <= i <= n,
            forall|j: int| 0 <= j < i ==> a@[j].target_mac@ == b@[j].target_mac@,
        decreases n - i,
    {
        if a[i].target_mac != b[i].target_mac {
            assert(mac_texts(a@)[i as int] != mac_texts(b@)[i as int]);
            return false;
        }
        i = i + 1;
    }
    assert(mac_texts(a@) =~= mac_texts(b@));
    true
}

/// No device left by a removal has the removed address text, and every
/// device with another address text is kept.
pub proof fn lemma_without_mac_contents(devices: Seq<DeviceEntry>, mac: Seq<char>)
    ensures
        !has_mac_text(without_mac(devices, mac), mac),
        forall|i: int|
            0 <= i < devices.len() && devices[i].target_mac@ != mac ==> without_mac(devices, mac).contains(
                #[trigger] devices[i],
            ),
        without_mac(devices, mac).len() <= devices.len(),
        !has_mac_text(devices, mac) ==> without_mac(devices, mac) == devices,
    decreases devices.len(),
{
    if devices.len() > 0 {
        let p = devices.drop_last();
        lemma_without_mac_contents(p, mac);
        let rest = without_mac(p, mac);
        if has_mac_text(without_mac(devices, mac), mac) {
            let w = without_mac(devices, mac);
            let k = choose|k: int| 0 <= k < w.len() && #[trigger] w[k].target_mac@ == mac;
            if devices.last().target_mac@ != mac && k == rest.len() {
            } else {
                assert(rest[k].target_mac@ == mac);
            }
        }
        assert forall|i: int|
            0 <= i < devices.len() && devices[i].target_mac@ != mac implies without_mac(devices, mac).contains(
            #[trigger] devices[i],
        ) by {
            if i < p.len() {
                assert(p[i] == devices[i]);
                let k = choose|k: int| 0 <= k < rest.len() && rest[k] == p[i];
                if devices.last().target_mac@ != mac {
                    assert(rest.push(devices.last())[k] == devices[i]);
                }
            } else {
                assert(rest.push(devices.last())[rest.len() as int] == devices[i]);
            }
        }
        if !has_mac_text(devices, mac) {
            assert forall|k: int| 0 <= k < p.len() implies p[k].target_mac@ != mac by {
                assert(p[k] == devices[k]);
            }
            assert(devices[devices.len() - 1].target_mac@ != mac);
            assert(p.push(devices.last()) =~= devices);
        }
    }
}

/// Removing a device that was just added gives back the devices that were
/// there before the addition.
pub proof fn lemma_remove_undoes_add(devices: Seq<DeviceEntry>, req: DeviceRequest)
    requires
        !has_mac_text(devices, req.target_mac@),
    ensures
        has_mac_text(devices.push(new_entry(req)), req.target_mac@),
        without_mac(devices.push(new_entry(req)), req.target_mac@) == devices,
{
    let d = devices.push(new_entry(req));
    assert(d[devices.len() as int].target_mac@ == req.target_mac@);
    assert(d.drop_last() =~= devices);
    lemma_without_mac_contents(devices, req.target_mac@);
}

/// Re-tuning a device keeps the list of device addresses, so it does not
/// change which devices are monitored.
pub proof fn lemma_retune_keeps_macs(devices: Seq<DeviceEntry>, i: int, req: UpdateDeviceRequest)
    requires
        0 <= i < devices.len(),
    ensures
        mac_texts(retuned(devices, i, req)) == mac_texts(devices),
{
    assert(mac_texts(retuned(devices, i, req)) =~= mac_texts(devices));
}


/// A successful add appends one entry and keeps the devices before it: the
/// new entry carries the request's own address text, name, Bluetooth
/// overrides and proximity overrides, with the classic transport and the uid
/// that stands for no active user; every other setting of the configuration
/// stays as it was.
pub proof fn lemma_add_stores_request(config: Config, req: DeviceRequest, r: Result<Config, DeviceEditError>)
    requires
        edit_outcome(r, config, config.devices@.push(new_entry(req))),
        r is Ok,
    ensures
        r->Ok_0.devices@.len() == config.devices@.len() + 1,
        r->Ok_0.devices@.drop_last() == config.devices@,
        r->Ok_0.devices@.last().target_mac == req.target_mac,
        r->Ok_0.devices@.last().name == req.name,
        r->Ok_0.devices@.last().bluetooth == req.bluetooth,
        r->Ok_0.devices@.last().proximity == req.proximity,
        r->Ok_0.devices@.last().address_type == AddressTypeConfig::BrEdr,
        r->Ok_0.devices@.last().uid == NO_ACTIVE_UID,
        same_settings(r->Ok_0, config),
{
    assert(config.devices@.push(new_entry(req)).drop_last() =~= config.devices@);
}


proof fn lemma_first_mac_witness(devices: Seq<DeviceEntry>, mac: Seq<char>, w: int)
    requires
        0 <= w < devices.len(),
        devices[w].target_mac@ == mac,
    ensures
        exists|i: int|
            0 <= i < devices.len() && devices[i].target_mac@ == mac && forall|j: int|
                0 <= j < i ==> #[trigger] devices[j].target_mac@ != mac,
    decreases w,
{
    if exists|j: int| 0 <= j < w && #[trigger] devices[j].target_mac@ == mac {
        let j = choose|j: int| 0 <= j < w && #[trigger] devices[j].target_mac@ == mac;
        lemma_first_mac_witness(devices, mac, j);
    } else {
        assert(forall|j: int| 0 <= j < w ==> #[trigger] devices[j].target_mac@ != mac);
    }
}

/// A successful re-tune changes only the first device with the request's
/// address text, and of it only its overrides, which become the request's;
/// its address, name, transport and uid stay, as do all other devices and
/// every other setting of the configuration.
pub proof fn lemma_update_stores_request(config: Config, req: UpdateDeviceRequest, r: Result<Config, DeviceEditError>)
    requires
        has_mac_text(config.devices@, req.target_mac@),
        edit_outcome(r, config, retuned(config.devices@, first_with_mac(config.devices@, req.target_mac@), req)),
        r is Ok,
    ensures
        r->Ok_0.devices@.len() == config.devices@.len(),
        same_settings(r->Ok_0, config),
        exists|i: int|
            0 <= i < config.devices@.len() && config.devices@[i].target_mac@ == req.target_mac@ && (forall|j: int|
                0 <= j < i ==> #[trigger] config.devices@[j].target_mac@ != req.target_mac@) && ({
                let e = r->Ok_0.devices@[i];
                let o = config.devices@[i];
                &&& e.bluetooth == req.bluetooth
                &&& e.proximity == req.proximity
                &&& e.target_mac == o.target_mac
                &&& e.name == o.name
                &&& e.address_type == o.address_type
                &&& e.uid == o.uid
            }) && (forall|j: int|
                0 <= j < config.devices@.len() && j != i ==> #[trigger] r->Ok_0.devices@[j] == config.devices@[j]),
{
    let w = choose|i: int| 0 <= i < config.devices@.len() && #[trigger] config.devices@[i].target_mac@ == req.target_mac@;
    lemma_first_mac_witness(config.devices@, req.target_mac@, w);
    let i = first_with_mac(config.devices@, req.target_mac@);
    assert(0 <= i < config.devices@.len() && config.devices@[i].target_mac@ == req.target_mac@);
}

} // verus!
