//! The Bluetooth devices that BlueZ knows, as the web UI lists them: which
//! objects are devices, what transport each uses, whether it is monitored,
//! and the order of the list.

use vstd::prelude::*;
use vstd::string::StringSliceAdditionalSpecFns;
use crate::config::{AddressTypeConfig, BluetoothOverrides, Config, DeviceEntry, ProximityOverrides, utf8};
use crate::sorting::{stable_order, is_permutation, stably_sorted};
use crate::devices::has_mac_text;
use crate::text::str_eq;

verus! {

/// The properties of a BlueZ `org.bluez.Device1` object that the listing
/// reads; each is absent when BlueZ did not report it with the expected type.
#[derive(Debug, Clone)]
pub struct DeviceProps {
    pub address: Option<String>,
    /// A `Class` property (a `u32`) is present: only classic devices have one.
    pub has_class: bool,
    pub address_type: Option<String>,
    pub alias: Option<String>,
    pub connected: Option<bool>,
    pub paired: Option<bool>,
}

/// A Bluetooth device known to BlueZ.
#[derive(Debug, Clone)]
pub struct BtDevice {
    pub mac: String,
    pub name: String,
    pub connected: bool,
    pub paired: bool,
    pub address_type: AddressTypeConfig,
}

/// `needle` occurs in `hay`.
pub open spec fn contains_bytes(hay: Seq<u8>, needle: Seq<u8>) -> bool {
    exists|i: int| 0 <= i <= hay.len() - needle.len() && #[trigger] hay.subrange(i, i + needle.len()) == needle
}

/// The UTF-8 bytes of `/dev_`, which every BlueZ device object path holds.
pub open spec fn dev_marker() -> Seq<u8> {
    seq![47u8, 100u8, 101u8, 118u8, 95u8]
}

/// Finds `/dev_` in a path.
fn path_names_device(path: &str) -> (r: bool)
    ensures
        r == contains_bytes(path.spec_bytes(), dev_marker()),
{
    let b = path.as_bytes();
    let marker: [u8; 5] = [47, 100, 101, 118, 95];
    assert(marker@ =~= dev_marker());
    let n = b.len();
    if n < 5 {
        return false;
    }
    let mut i: usize = 0;
    while i <= n - 5
        invariant
            n == b@.len(),
            n >= 5,
            b@ == path.spec_bytes(),
            marker@ == dev_marker(),
            0 <= i <= n - 4,
            forall|j: int| 0 <= j < i ==> #[trigger] b@.subrange(j, j + 5) != dev_marker(),
        decreases n - i,
    {
        let mut k: usize = 0;
        while k < 5 && b[i + k] == marker[k]
            invariant
                n == b@.len(),
                i + 5 <= n,
                marker@ == dev_marker(),
                0 <= k <= 5,
                forall|j: int| 0 <= j < k ==> b@[i + j] == marker@[j],
            decreases 5 - k,
        {
            k = k + 1;
        }
        if k == 5 {
            assert(b@.subrange(i as int, i + 5) =~= dev_marker());
            return true;
        }
        assert(b@.subrange(i as int, i + 5)[k as int] != dev_marker()[k as int]);
        i = i + 1;
    }
    false
}

/// The transport of a device: classic when it has a class, otherwise what its
/// LE address type says; `None` for an address type the daemon cannot use.
pub open spec fn spec_transport(has_class: bool, address_type: Option<Seq<char>>) -> Option<AddressTypeConfig> {
    if has_class {
        Some(AddressTypeConfig::BrEdr)
    } else {
        match address_type {
            Some(t) => if t == "public"@ {
                Some(AddressTypeConfig::LePublic)
            } else if t == "random"@ || t == "static"@ {
                Some(AddressTypeConfig::LeRandom)
            } else {
                None
            },
            None => None,
        }
    }
}

fn transport(has_class: bool, address_type: &Option<String>) -> (r: Option<AddressTypeConfig>)
    ensures
        r == spec_transport(has_class, match address_type {
            Some(t) => Some(t@),
            None => None,
        }),
{
    if has_class {
        return Some(AddressTypeConfig::BrEdr);
    }
    match address_type {
        Some(t) => {
            if str_eq(t.as_str(), "public") {
                Some(AddressTypeConfig::LePublic)
            } else if str_eq(t.as_str(), "random") || str_eq(t.as_str(), "static") {
                Some(AddressTypeConfig::LeRandom)
            } else {
                None
            }
        },
        None => None,
    }
}

/// Describes a BlueZ object as a device, if it is one the daemon can
/// monitor: its path names a device, it has an address, and its transport is
/// known. Its name is its alias, or its address without one; missing
/// connection flags read as false.
pub fn describe_bt_device(path: &str, props: &DeviceProps) -> (r: Option<BtDevice>)
    ensures
        r is Some <==> contains_bytes(path.spec_bytes(), dev_marker()) && props.address is Some && spec_transport(
            props.has_class,
            match props.address_type {
                Some(t) => Some(t@),
                None => None,
            },
        ) is Some,
        r matches Some(d) ==> {
            &&& d.mac@ == props.address->0@
            &&& d.name@ == (match props.alias {
                Some(a) => a@,
                None => props.address->0@,
            })
            &&& d.connected == (props.connected == Some(true))
            &&& d.paired == (props.paired == Some(true))
            &&& Some(d.address_type) == spec_transport(props.has_class, match props.address_type {
                Some(t) => Some(t@),
                None => None,
            })
        },
{
    if !path_names_device(path) {
        return None;
    }
    let mac = match &props.address {
        Some(m) => m.clone(),
        None => {
            return None;
        },
    };
    let address_type = match transport(props.has_class, &props.address_type) {
        Some(t) => t,
        None => {
            return None;
        },
    };
    let name = match &props.alias {
        Some(a) => a.clone(),
        None => mac.clone(),
    };
    let connected = match props.connected {
        Some(c) => c,
        None => false,
    };
    let paired = match props.paired {
        Some(p) => p,
        None => false,
    };
    Some(BtDevice { mac, name, connected, paired, address_type })
}

/// What `str::to_lowercase` gives for a text: its Unicode lower-case
/// mapping, which depends on the text alone.
pub uninterp spec fn lowercase(s: Seq<char>) -> Seq<char>;

/// `str::to_lowercase`.
#[verifier::external_body]
fn to_lowercase(s: &str) -> (r: String)
    ensures
        r@ == lowercase(s@),
{
    s.to_lowercase()
}

impl BtDevice {
    /// A copy of the device.
    pub fn clone_device(&self) -> (r: BtDevice)
        ensures
            r == *self,
    {
        BtDevice {
            mac: self.mac.clone(),
            name: self.name.clone(),
            connected: self.connected,
            paired: self.paired,
            address_type: self.address_type,
        }
    }
}

/// A device as the web UI lists it.
#[derive(Debug, Clone)]
pub struct DeviceListing {
    pub device: BtDevice,
    /// Some configured device has exactly this address text.
    pub monitored: bool,
    /// The overrides of the last configured device with this address text.
    pub overrides: Option<(BluetoothOverrides, ProximityOverrides)>,
}

/// The last configured device whose `target_mac` is exactly the text.
pub open spec fn last_with_mac(devices: Seq<DeviceEntry>, mac: Seq<char>) -> Option<DeviceEntry>
    decreases devices.len(),
{
    if devices.len() == 0 {
        None
    } else if devices.last().target_mac@ == mac {
        Some(devices.last())
    } else {
        last_with_mac(devices.drop_last(), mac)
    }
}

/// The overrides shown for a device.
pub open spec fn listed_overrides(devices: Seq<DeviceEntry>, mac: Seq<char>) -> Option<(BluetoothOverrides, ProximityOverrides)> {
    match last_with_mac(devices, mac) {
        Some(e) => Some((e.bluetooth, e.proximity)),
        None => None,
    }
}

/// The sort key of a device: its lower-cased name, as bytes.
pub open spec fn name_key(d: BtDevice) -> Seq<u8> {
    utf8(lowercase(d.name@))
}

fn overrides_for(devices: &Vec<DeviceEntry>, mac: &String) -> (r: (bool, Option<(BluetoothOverrides, ProximityOverrides)>))
    ensures
        r.0 == has_mac_text(devices@, mac@),
        r.1 == listed_overrides(devices@, mac@),
{
    let n = devices.len();
    let mut i: usize = n;
    assert(devices@.take(n as int) =~= devices@);
    while i > 0
        invariant
            n == devices@.len(),
            0 <= i <= n,
            last_with_mac(devices@, mac@) == last_with_mac(devices@.take(i as int), mac@),
            forall|j: int| i <= j < n ==> devices@[j].target_mac@ != mac@,
        decreases i,
    {
        proof {
            assert(devices@.take(i as int).drop_last() =~= devices@.take(i - 1));
            assert(devices@.take(i as int).last() == devices@[i - 1]);
        }
        if devices[i - 1].target_mac == *mac {
            assert(devices@[i - 1].target_mac@ == mac@);
            let d = &devices[i - 1];
            return (true, Some((d.bluetooth, d.proximity)));
        }
        i = i - 1;
    }
    assert(devices@.take(0) =~= Seq::<DeviceEntry>::empty());
    (false, None)
}

/// The devices for the web UI: each marked monitored or not, with the
/// overrides configured for it, listed by lower-cased name (in byte order),
/// devices with the same name in the order given.
pub fn device_listing(devices: &Vec<BtDevice>, config: &Config) -> (r: Vec<DeviceListing>)
    ensures
        exists|order: Seq<usize>|
            is_permutation(order, devices@.len() as int) && stably_sorted(order, devices@.map_values(|d: BtDevice| name_key(d)))
                && r@.len() == devices@.len() && forall|k: int|
                0 <= k < r@.len() ==> {
                    &&& (#[trigger] r@[k]).device == devices@[order[k] as int]
                    &&& r@[k].monitored == has_mac_text(config.devices@, devices@[order[k] as int].mac@)
                    &&& r@[k].overrides == listed_overrides(config.devices@, devices@[order[k] as int].mac@)
                },
{
    let n = devices.len();
    let mut keys: Vec<Vec<u8>> = Vec::new();
    let mut i: usize = 0;
    while i < n
        invariant
            n == devices@.len(),
            0 <= i <= n,
            keys@.len() == i,
            forall|j: int| 0 <= j < i ==> #[trigger] keys@[j]@ == name_key(devices@[j]),
        decreases n - i,
    {
        let lower = to_lowercase(devices[i].name.as_str());
        let bytes = lower.as_str().as_bytes();
        let mut k: Vec<u8> = Vec::new();
        k.extend_from_slice(bytes);
        assert(k@ =~= name_key(devices@[i as int]));
        keys.push(k);
        i = i + 1;
    }
    assert(keys@.map_values(|k: Vec<u8>| k@) =~= devices@.map_values(|d: BtDevice| name_key(d)));
    let order = stable_order(&keys);
    let mut out: Vec<DeviceListing> = Vec::new();
    let mut k: usize = 0;
    while k < n
        invariant
            n == devices@.len(),
            is_permutation(order@, n as int),
            0 <= k <= n,
            out@.len() == k,
            forall|j: int|
                0 <= j < k ==> {
                    &&& (#[trigger] out@[j]).device == devices@[order@[j] as int]
                    &&& out@[j].monitored == has_mac_text(config.devices@, devices@[order@[j] as int].mac@)
                    &&& out@[j].overrides == listed_overrides(config.devices@, devices@[order@[j] as int].mac@)
                },
        decreases n - k,
    {
        let d = &devices[order[k]];
        let (monitored, overrides) = overrides_for(&config.devices, &d.mac);
        out.push(DeviceListing { device: d.clone_device(), monitored, overrides });
        k = k + 1;
    }
    out
}


/// A device's transport: classic whenever it has a class; otherwise, by its
/// LE address type, `public` is LE public, `random` and `static` are LE
/// random, and any other address type, or none, leaves it out.
pub proof fn lemma_transport_by_address_type(has_class: bool, t: Option<Seq<char>>)
    ensures
        has_class ==> spec_transport(has_class, t) == Some(AddressTypeConfig::BrEdr),
        !has_class && t == Some(seq!['p', 'u', 'b', 'l', 'i', 'c']) ==> spec_transport(has_class, t) == Some(
            AddressTypeConfig::LePublic,
        ),
        !has_class && t == Some(seq!['r', 'a', 'n', 'd', 'o', 'm']) ==> spec_transport(has_class, t) == Some(
            AddressTypeConfig::LeRandom,
        ),
        !has_class && t == Some(seq!['s', 't', 'a', 't', 'i', 'c']) ==> spec_transport(has_class, t) == Some(
            AddressTypeConfig::LeRandom,
        ),
        !has_class && t is None ==> spec_transport(has_class, t) is None,
        !has_class && (t matches Some(x) && x != seq!['p', 'u', 'b', 'l', 'i', 'c'] && x != seq![
            'r',
            'a',
            'n',
            'd',
            'o',
            'm',
        ] && x != seq!['s', 't', 'a', 't', 'i', 'c']) ==> spec_transport(has_class, t) is None,
{
    reveal_strlit("public");
    reveal_strlit("random");
    reveal_strlit("static");
    assert("public"@ =~= seq!['p', 'u', 'b', 'l', 'i', 'c']);
    assert("random"@ =~= seq!['r', 'a', 'n', 'd', 'o', 'm']);
    assert("static"@ =~= seq!['s', 't', 'a', 't', 'i', 'c']);
}

} // verus!
