//! The daemon's configuration: per-transport defaults, per-device overrides,
//! how a device's effective settings are resolved, and validation.
//!
//! Quantities that the configuration file writes as floating-point numbers
//! (`rpl_threshold`, `kalman_q`, `kalman_r`, `kalman_initial`) are held as the
//! bit patterns of their `f64` values; see [`crate::floatbits`].

use vstd::prelude::*;
use vstd::string::StringSliceAdditionalSpecFns;
use vstd::utf8::encode_utf8;
use crate::floatbits::{f64_bits_positive, f64_positive};
use crate::mac::{mac_text_bytes, mac_text_valid, Mac};

verus! {

/// What happens to the session when the device's connection is lost.
#[derive(Debug, Clone, Copy, PartialEq, Eq, Structural)]
pub enum DisconnectActionConfig {
    Lock,
    Unlock,
    Nothing,
}

/// Which of the daemon's services run.
#[derive(Debug, Clone, Copy, PartialEq, Eq, Structural)]
pub enum DaemonMode {
    Both,
    PamOnly,
    LockOnly,
}

/// The Bluetooth transport and address type of a device.
#[derive(Debug, Clone, Copy, PartialEq, Eq, Structural)]
pub enum AddressTypeConfig {
    BrEdr,
    LePublic,
    LeRandom,
}

#[derive(Debug, Clone, Copy, PartialEq, Eq, Structural)]
pub struct DaemonConfig {
    pub mode: DaemonMode,
}

/// Defaults for classic (BR/EDR) devices.
#[derive(Debug, Clone, Copy, PartialEq, Eq, Structural)]
pub struct BrEdrDefaults {
    pub poll_interval_ms: u64,
    pub disconnect_poll_interval_ms: u64,
    /// `f64` bits.
    pub rpl_threshold: u64,
    pub lock_count: u32,
    pub unlock_count: u32,
    /// `f64` bits.
    pub kalman_q: u64,
    /// `f64` bits.
    pub kalman_r: u64,
    /// `f64` bits.
    pub kalman_initial: u64,
    pub disconnect_action: DisconnectActionConfig,
}

/// Defaults for Low Energy devices.
#[derive(Debug, Clone, Copy, PartialEq, Eq, Structural)]
pub struct LeDefaults {
    pub poll_interval_ms: u64,
    pub disconnect_poll_interval_ms: u64,
    /// `f64` bits.
    pub rpl_threshold: u64,
    pub lock_count: u32,
    pub unlock_count: u32,
    /// `f64` bits.
    pub kalman_q: u64,
    /// `f64` bits.
    pub kalman_r: u64,
    /// `f64` bits.
    pub kalman_initial: u64,
    pub disconnect_action: DisconnectActionConfig,
    /// Transmit power assumed when the controller cannot report it.
    pub fallback_tx_power: i8,
}

/// How the screen is woken before an unlock.
#[derive(Debug, Clone, Copy, PartialEq, Eq, Structural)]
pub struct WakeConfig {
    pub duration_secs: u64,
    pub mouse_interval_ms: u64,
    pub enter_interval_ms: u64,
}

/// The web UI.
#[derive(Debug, Clone)]
pub struct WebConfig {
    pub enabled: bool,
    pub port: u16,
    pub password_hash: Option<String>,
}

/// Per-device Bluetooth settings that replace the transport defaults.
#[derive(Debug, Clone, Copy, PartialEq, Eq, Structural)]
pub struct BluetoothOverrides {
    pub adapter_index: Option<u16>,
    pub poll_interval_ms: Option<u64>,
    pub disconnect_poll_interval_ms: Option<u64>,
}

/// Per-device proximity settings that replace the transport defaults.
#[derive(Debug, Clone, Copy, PartialEq, Eq, Structural)]
pub struct ProximityOverrides {
    /// `f64` bits.
    pub rpl_threshold: Option<u64>,
    pub lock_count: Option<u32>,
    pub unlock_count: Option<u32>,
    /// `f64` bits.
    pub kalman_q: Option<u64>,
    /// `f64` bits.
    pub kalman_r: Option<u64>,
    /// `f64` bits.
    pub kalman_initial: Option<u64>,
    pub disconnect_action: Option<DisconnectActionConfig>,
    pub fallback_tx_power: Option<i8>,
}

/// A monitored device.
#[derive(Debug, Clone)]
pub struct DeviceEntry {
    pub uid: u32,
    pub target_mac: String,
    pub address_type: AddressTypeConfig,
    pub name: Option<String>,
    pub bluetooth: BluetoothOverrides,
    pub proximity: ProximityOverrides,
}

/// The whole configuration.
#[derive(Debug, Clone)]
pub struct Config {
    pub daemon: DaemonConfig,
    pub adapter_index: u16,
    pub br_edr: BrEdrDefaults,
    pub le: LeDefaults,
    pub wake: WakeConfig,
    pub web: WebConfig,
    pub devices: Vec<DeviceEntry>,
}

/// A device's resolved Bluetooth settings.
#[derive(Debug, Clone, Copy, PartialEq, Eq, Structural)]
pub struct BluetoothConfig {
    pub adapter_index: u16,
    pub address_type: AddressTypeConfig,
    pub poll_interval_ms: u64,
    pub disconnect_poll_interval_ms: u64,
}

/// A device's resolved proximity settings.
#[derive(Debug, Clone, Copy, PartialEq, Eq, Structural)]
pub struct ProximityConfig {
    /// `f64` bits.
    pub rpl_threshold: u64,
    pub lock_count: u32,
    pub unlock_count: u32,
    /// `f64` bits.
    pub kalman_q: u64,
    /// `f64` bits.
    pub kalman_r: u64,
    /// `f64` bits.
    pub kalman_initial: u64,
    pub disconnect_action: DisconnectActionConfig,
    pub fallback_tx_power: i8,
}

/// Why a configuration was rejected. The checks run in the order of the
/// variants: a configuration with a value out of range is reported as such
/// whatever its MAC addresses are.
#[derive(Debug, Clone, Copy, PartialEq, Eq, Structural)]
pub enum ValidationError {
    /// A count, interval or port is zero, or a noise covariance is not positive.
    OutOfRange,
    /// A device's `target_mac` is not a MAC address.
    InvalidMac,
    /// Two devices name the same MAC address, in whatever spelling.
    DuplicateMac,
}

/// `f64` bits of 15.0.
pub const BR_EDR_RPL_THRESHOLD: u64 = 0x402E_0000_0000_0000;
/// `f64` bits of 0.1.
pub const DEFAULT_KALMAN_Q: u64 = 0x3FB9_9999_9999_999A;
/// `f64` bits of 3.0.
pub const BR_EDR_KALMAN_R: u64 = 0x4008_0000_0000_0000;
/// `f64` bits of 5.0.
pub const BR_EDR_KALMAN_INITIAL: u64 = 0x4014_0000_0000_0000;
/// `f64` bits of 60.0.
pub const LE_RPL_THRESHOLD: u64 = 0x404E_0000_0000_0000;
/// `f64` bits of 8.0.
pub const LE_KALMAN_R: u64 = 0x4020_0000_0000_0000;
/// `f64` bits of 40.0.
pub const LE_KALMAN_INITIAL: u64 = 0x4044_0000_0000_0000;

/// The web UI's default port.
pub const DEFAULT_WEB_PORT: u16 = 15999;

/// The UTF-8 bytes of a text.
pub open spec fn utf8(s: Seq<char>) -> Seq<u8> {
    encode_utf8(s)
}

/// The address that a device's `target_mac` spells, for a valid one.
pub open spec fn device_mac(d: DeviceEntry) -> Seq<u8> {
    mac_text_bytes(utf8(d.target_mac@))
}

/// The device's `target_mac` spells a MAC address.
pub open spec fn device_mac_valid(d: DeviceEntry) -> bool {
    mac_text_valid(utf8(d.target_mac@))
}

impl BrEdrDefaults {
    pub open spec fn in_range(&self) -> bool {
        &&& self.poll_interval_ms >= 1
        &&& self.disconnect_poll_interval_ms >= 1
        &&& self.lock_count >= 1
        &&& self.unlock_count >= 1
        &&& f64_positive(self.kalman_q)
        &&& f64_positive(self.kalman_r)
    }

    pub fn check_range(&self) -> (r: bool)
        ensures
            r == self.in_range(),
    {
        self.poll_interval_ms >= 1 && self.disconnect_poll_interval_ms >= 1 && self.lock_count >= 1
            && self.unlock_count >= 1 && f64_bits_positive(self.kalman_q) && f64_bits_positive(
            self.kalman_r,
        )
    }
}

impl LeDefaults {
    pub open spec fn in_range(&self) -> bool {
        &&& self.poll_interval_ms >= 1
        &&& self.disconnect_poll_interval_ms >= 1
        &&& self.lock_count >= 1
        &&& self.unlock_count >= 1
        &&& f64_positive(self.kalman_q)
        &&& f64_positive(self.kalman_r)
    }

    pub fn check_range(&self) -> (r: bool)
        ensures
            r == self.in_range(),
    {
        self.poll_interval_ms >= 1 && self.disconnect_poll_interval_ms >= 1 && self.lock_count >= 1
            && self.unlock_count >= 1 && f64_bits_positive(self.kalman_q) && f64_bits_positive(
            self.kalman_r,
        )
    }
}

impl WakeConfig {
    pub open spec fn in_range(&self) -> bool {
        &&& self.duration_secs >= 1
        &&& self.mouse_interval_ms >= 1
        &&& self.enter_interval_ms >= 1
    }
}

impl WebConfig {
    pub open spec fn in_range(&self) -> bool {
        self.port >= 1
    }
}

/// An optional value, when present, is at least one.
pub open spec fn opt_at_least_one_u64(v: Option<u64>) -> bool {
    v matches Some(x) ==> x >= 1
}

pub open spec fn opt_at_least_one_u32(v: Option<u32>) -> bool {
    v matches Some(x) ==> x >= 1
}

/// An optional `f64`, when present, is positive.
pub open spec fn opt_positive(v: Option<u64>) -> bool {
    v matches Some(x) ==> f64_positive(x)
}

impl BluetoothOverrides {
    pub open spec fn in_range(&self) -> bool {
        &&& opt_at_least_one_u64(self.poll_interval_ms)
        &&& opt_at_least_one_u64(self.disconnect_poll_interval_ms)
    }

    pub fn check_range(&self) -> (r: bool)
        ensures
            r == self.in_range(),
    {
        let a = match self.poll_interval_ms {
            Some(x) => x >= 1,
            None => true,
        };
        let b = match self.disconnect_poll_interval_ms {
            Some(x) => x >= 1,
            None => true,
        };
        a && b
    }
}

impl ProximityOverrides {
    pub open spec fn in_range(&self) -> bool {
        &&& opt_at_least_one_u32(self.lock_count)
        &&& opt_at_least_one_u32(self.unlock_count)
        &&& opt_positive(self.kalman_q)
        &&& opt_positive(self.kalman_r)
    }

    pub fn check_range(&self) -> (r: bool)
        ensures
            r == self.in_range(),
    {
        let a = match self.lock_count {
            Some(x) => x >= 1,
            None => true,
        };
        let b = match self.unlock_count {
            Some(x) => x >= 1,
            None => true,
        };
        let c = match self.kalman_q {
            Some(x) => f64_bits_positive(x),
            None => true,
        };
        let d = match self.kalman_r {
            Some(x) => f64_bits_positive(x),
            None => true,
        };
        a && b && c && d
    }
}

impl DeviceEntry {
    /// A copy of the entry.
    pub fn clone_entry(&self) -> (r: DeviceEntry)
        ensures
            r == *self,
    {
        DeviceEntry {
            uid: self.uid,
            target_mac: self.target_mac.clone(),
            address_type: self.address_type,
            name: match &self.name {
                Some(n) => Some(n.clone()),
                None => None,
            },
            bluetooth: self.bluetooth,
            proximity: self.proximity,
        }
    }

    /// The device's override values are in range.
    pub open spec fn in_range(&self) -> bool {
        self.bluetooth.in_range() && self.proximity.in_range()
    }
}

/// Every device's overrides are in range.
pub open spec fn devices_in_range(devices: Seq<DeviceEntry>) -> bool {
    forall|i: int| 0 <= i < devices.len() ==> #[trigger] devices[i].in_range()
}

/// Every device's `target_mac` is a MAC address.
pub open spec fn devices_macs_valid(devices: Seq<DeviceEntry>) -> bool {
    forall|i: int| 0 <= i < devices.len() ==> #[trigger] device_mac_valid(devices[i])
}

/// No two devices name the same address.
pub open spec fn devices_macs_distinct(devices: Seq<DeviceEntry>) -> bool {
    forall|i: int, j: int|
        0 <= i < j < devices.len() ==> #[trigger] device_mac(devices[i]) != #[trigger] device_mac(devices[j])
}

/// What validating a configuration with these settings and these devices
/// reports: the first failing check, or `None`.
pub open spec fn check_with(c: Config, devices: Seq<DeviceEntry>) -> Option<ValidationError> {
    if !(c.settings_in_range() && devices_in_range(devices)) {
        Some(ValidationError::OutOfRange)
    } else if !devices_macs_valid(devices) {
        Some(ValidationError::InvalidMac)
    } else if !devices_macs_distinct(devices) {
        Some(ValidationError::DuplicateMac)
    } else {
        None
    }
}

/// Checks a MAC address written as text.
pub fn validate_mac(mac: &str) -> (r: Result<(), ValidationError>)
    ensures
        r is Ok <==> mac_text_valid(mac.spec_bytes()),
        r is Err ==> r == Err::<(), ValidationError>(ValidationError::InvalidMac),
{
    match Mac::parse(mac) {
        Ok(_) => Ok(()),
        Err(_) => Err(ValidationError::InvalidMac),
    }
}

impl Config {
    /// The sections other than the devices hold values in range.
    pub open spec fn settings_in_range(&self) -> bool {
        &&& self.br_edr.in_range()
        &&& self.le.in_range()
        &&& self.wake.in_range()
        &&& self.web.in_range()
    }

    /// Every section's values and every device's overrides are in range.
    pub open spec fn ranges_valid(&self) -> bool {
        self.settings_in_range() && devices_in_range(self.devices@)
    }

    /// Every device's `target_mac` is a MAC address.
    pub open spec fn macs_valid(&self) -> bool {
        devices_macs_valid(self.devices@)
    }

    /// No two devices name the same address.
    pub open spec fn macs_distinct(&self) -> bool {
        devices_macs_distinct(self.devices@)
    }

    /// The configuration is acceptable to the daemon.
    pub open spec fn valid(&self) -> bool {
        self.ranges_valid() && self.macs_valid() && self.macs_distinct()
    }

    /// Checks the configuration; see [`ValidationError`] for the order of
    /// the checks.
    pub fn validate(&self) -> (r: Result<(), ValidationError>)
        ensures
            r is Ok <==> self.valid(),
            r == Err::<(), ValidationError>(ValidationError::OutOfRange) <==> !self.ranges_valid(),
            r == Err::<(), ValidationError>(ValidationError::InvalidMac) <==> self.ranges_valid()
                && !self.macs_valid(),
            r == Err::<(), ValidationError>(ValidationError::DuplicateMac) <==> self.ranges_valid()
                && self.macs_valid() && !self.macs_distinct(),
            match check_with(*self, self.devices@) {
                Some(e) => r == Err::<(), ValidationError>(e),
                None => r is Ok,
            },
    {
        let wake_ok = self.wake.duration_secs >= 1 && self.wake.mouse_interval_ms >= 1
            && self.wake.enter_interval_ms >= 1;
        if !self.br_edr.check_range() || !self.le.check_range() || !wake_ok || self.web.port < 1 {
            return Err(ValidationError::OutOfRange);
        }
        let n = self.devices.len();
        let mut i: usize = 0;
        while i < n
            invariant
                n == self.devices@.len(),
                0 <= i <= n,
                forall|j: int| 0 <= j < i ==> #[trigger] self.devices@[j].in_range(),
            decreases n - i,
        {
            let d = &self.devices[i];
            if !d.bluetooth.check_range() || !d.proximity.check_range() {
                assert(!self.devices@[i as int].in_range());
                return Err(ValidationError::OutOfRange);
            }
            i = i + 1;
        }
        assert(self.ranges_valid());
        let mut parsed: Vec<Mac> = Vec::new();
        i = 0;
        while i < n
            invariant
                n == self.devices@.len(),
                0 <= i <= n,
                parsed@.len() == i,
                self.ranges_valid(),
                forall|j: int| 0 <= j < i ==> #[trigger] device_mac_valid(self.devices@[j]),
                forall|j: int| 0 <= j < i ==> #[trigger] parsed@[j]@ == device_mac(self.devices@[j]),
            decreases n - i,
        {
            match Mac::parse(self.devices[i].target_mac.as_str()) {
                Ok(m) => {
                    parsed.push(m);
                },
                Err(_) => {
                    assert(!device_mac_valid(self.devices@[i as int]));
                    return Err(ValidationError::InvalidMac);
                },
            }
            i = i + 1;
        }
        assert(self.macs_valid());
        i = 0;
        while i < n
            invariant
                n == self.devices@.len(),
                0 <= i <= n,
                parsed@.len() == n,
                self.ranges_valid(),
                self.macs_valid(),
                forall|j: int| 0 <= j < n ==> #[trigger] parsed@[j]@ == device_mac(self.devices@[j]),
                forall|a: int, b: int|
                    0 <= a < i && a < b < n ==> #[trigger] device_mac(self.devices@[a])
                        != #[trigger] device_mac(self.devices@[b]),
            decreases n - i,
        {
            let mut k: usize = i + 1;
            while k < n
                invariant
                    n == self.devices@.len(),
                    0 <= i < n,
                    i + 1 <= k <= n,
                    parsed@.len() == n,
                    self.ranges_valid(),
                    self.macs_valid(),
                    forall|j: int| 0 <= j < n ==> #[trigger] parsed@[j]@ == device_mac(self.devices@[j]),
                    forall|a: int, b: int|
                        0 <= a < i && a < b < n ==> #[trigger] device_mac(self.devices@[a])
                            != #[trigger] device_mac(self.devices@[b]),
                    forall|b: int|
                        i < b < k ==> device_mac(self.devices@[i as int]) != #[trigger] device_mac(
                            self.devices@[b],
                        ),
                decreases n - k,
            {
                if parsed[i] == parsed[k] {
                    assert(device_mac(self.devices@[i as int]) == device_mac(self.devices@[k as int]));
                    return Err(ValidationError::DuplicateMac);
                }
                k = k + 1;
            }
            i = i + 1;
        }
        Ok(())
    }

    /// The Bluetooth settings for a device: its overrides where it has them,
    /// otherwise the defaults of its transport and the global adapter index.
    pub fn bluetooth_for_device(&self, device: &DeviceEntry) -> (b: BluetoothConfig)
        ensures
            b == spec_bluetooth_for_device(*self, *device),
    {
        let (poll, dis_poll) = match device.address_type {
            AddressTypeConfig::BrEdr => (
                self.br_edr.poll_interval_ms,
                self.br_edr.disconnect_poll_interval_ms,
            ),
            AddressTypeConfig::LePublic | AddressTypeConfig::LeRandom => (
                self.le.poll_interval_ms,
                self.le.disconnect_poll_interval_ms,
            ),
        };
        BluetoothConfig {
            adapter_index: match device.bluetooth.adapter_index {
                Some(v) => v,
                None => self.adapter_index,
            },
            address_type: device.address_type,
            poll_interval_ms: match device.bluetooth.poll_interval_ms {
                Some(v) => v,
                None => poll,
            },
            disconnect_poll_interval_ms: match device.bluetooth.disconnect_poll_interval_ms {
                Some(v) => v,
                None => dis_poll,
            },
        }
    }

    /// The proximity settings for a device: each of its overrides where it
    /// has one, otherwise its transport's default. A classic device without
    /// an override of the fallback transmit power gets 0.
    pub fn proximity_for_device(&self, device: &DeviceEntry) -> (p: ProximityConfig)
        ensures
            p == spec_proximity_for_device(*self, *device),
    {
        let o = &device.proximity;
        match device.address_type {
            AddressTypeConfig::BrEdr => {
                let d = &self.br_edr;
                ProximityConfig {
                    rpl_threshold: unwrap_or_u64(o.rpl_threshold, d.rpl_threshold),
                    lock_count: unwrap_or_u32(o.lock_count, d.lock_count),
                    unlock_count: unwrap_or_u32(o.unlock_count, d.unlock_count),
                    kalman_q: unwrap_or_u64(o.kalman_q, d.kalman_q),
                    kalman_r: unwrap_or_u64(o.kalman_r, d.kalman_r),
                    kalman_initial: unwrap_or_u64(o.kalman_initial, d.kalman_initial),
                    disconnect_action: match o.disconnect_action {
                        Some(a) => a,
                        None => d.disconnect_action,
                    },
                    fallback_tx_power: match o.fallback_tx_power {
                        Some(t) => t,
                        None => 0,
                    },
                }
            },
            AddressTypeConfig::LePublic | AddressTypeConfig::LeRandom => {
                let d = &self.le;
                ProximityConfig {
                    rpl_threshold: unwrap_or_u64(o.rpl_threshold, d.rpl_threshold),
                    lock_count: unwrap_or_u32(o.lock_count, d.lock_count),
                    unlock_count: unwrap_or_u32(o.unlock_count, d.unlock_count),
                    kalman_q: unwrap_or_u64(o.kalman_q, d.kalman_q),
                    kalman_r: unwrap_or_u64(o.kalman_r, d.kalman_r),
                    kalman_initial: unwrap_or_u64(o.kalman_initial, d.kalman_initial),
                    disconnect_action: match o.disconnect_action {
                        Some(a) => a,
                        None => d.disconnect_action,
                    },
                    fallback_tx_power: match o.fallback_tx_power {
                        Some(t) => t,
                        None => d.fallback_tx_power,
                    },
                }
            },
        }
    }
}

/// The value if present, else the default.
pub open spec fn or_default<T>(v: Option<T>, d: T) -> T {
    match v {
        Some(x) => x,
        None => d,
    }
}

fn unwrap_or_u64(v: Option<u64>, d: u64) -> (r: u64)
    ensures
        r == or_default(v, d),
{
    match v {
        Some(x) => x,
        None => d,
    }
}

fn unwrap_or_u32(v: Option<u32>, d: u32) -> (r: u32)
    ensures
        r == or_default(v, d),
{
    match v {
        Some(x) => x,
        None => d,
    }
}

/// The resolved Bluetooth settings of a device.
pub open spec fn spec_bluetooth_for_device(c: Config, device: DeviceEntry) -> BluetoothConfig {
    let br_edr = device.address_type == AddressTypeConfig::BrEdr;
    BluetoothConfig {
        adapter_index: or_default(device.bluetooth.adapter_index, c.adapter_index),
        address_type: device.address_type,
        poll_interval_ms: or_default(
            device.bluetooth.poll_interval_ms,
            if br_edr { c.br_edr.poll_interval_ms } else { c.le.poll_interval_ms },
        ),
        disconnect_poll_interval_ms: or_default(
            device.bluetooth.disconnect_poll_interval_ms,
            if br_edr { c.br_edr.disconnect_poll_interval_ms } else { c.le.disconnect_poll_interval_ms },
        ),
    }
}

/// The resolved proximity settings of a device.
pub open spec fn spec_proximity_for_device(c: Config, device: DeviceEntry) -> ProximityConfig {
    let o = device.proximity;
    if device.address_type == AddressTypeConfig::BrEdr {
        ProximityConfig {
            rpl_threshold: or_default(o.rpl_threshold, c.br_edr.rpl_threshold),
            lock_count: or_default(o.lock_count, c.br_edr.lock_count),
            unlock_count: or_default(o.unlock_count, c.br_edr.unlock_count),
            kalman_q: or_default(o.kalman_q, c.br_edr.kalman_q),
            kalman_r: or_default(o.kalman_r, c.br_edr.kalman_r),
            kalman_initial: or_default(o.kalman_initial, c.br_edr.kalman_initial),
            disconnect_action: or_default(o.disconnect_action, c.br_edr.disconnect_action),
            fallback_tx_power: or_default(o.fallback_tx_power, 0i8),
        }
    } else {
        ProximityConfig {
            rpl_threshold: or_default(o.rpl_threshold, c.le.rpl_threshold),
            lock_count: or_default(o.lock_count, c.le.lock_count),
            unlock_count: or_default(o.unlock_count, c.le.unlock_count),
            kalman_q: or_default(o.kalman_q, c.le.kalman_q),
            kalman_r: or_default(o.kalman_r, c.le.kalman_r),
            kalman_initial: or_default(o.kalman_initial, c.le.kalman_initial),
            disconnect_action: or_default(o.disconnect_action, c.le.disconnect_action),
            fallback_tx_power: or_default(o.fallback_tx_power, c.le.fallback_tx_power),
        }
    }
}

impl Default for DisconnectActionConfig {
    fn default() -> (r: Self)
        ensures
            r == DisconnectActionConfig::Nothing,
    {
        DisconnectActionConfig::Nothing
    }
}

impl Default for DaemonMode {
    fn default() -> (r: Self)
        ensures
            r == DaemonMode::Both,
    {
        DaemonMode::Both
    }
}

impl Default for AddressTypeConfig {
    fn default() -> (r: Self)
        ensures
            r == AddressTypeConfig::BrEdr,
    {
        AddressTypeConfig::BrEdr
    }
}

impl Default for DaemonConfig {
    fn default() -> (r: Self)
        ensures
            r.mode == DaemonMode::Both,
    {
        DaemonConfig { mode: DaemonMode::Both }
    }
}

impl BrEdrDefaults {
    /// The classic defaults: 1 s polls, 5 s while disconnected, threshold
    /// 15.0, counts of 4, q = 0.1, r = 3.0, initial estimate 5.0, no action
    /// on disconnect.
    pub open spec fn spec_default() -> BrEdrDefaults {
        BrEdrDefaults {
            poll_interval_ms: 1000,
            disconnect_poll_interval_ms: 5000,
            rpl_threshold: BR_EDR_RPL_THRESHOLD,
            lock_count: 4,
            unlock_count: 4,
            kalman_q: DEFAULT_KALMAN_Q,
            kalman_r: BR_EDR_KALMAN_R,
            kalman_initial: BR_EDR_KALMAN_INITIAL,
            disconnect_action: DisconnectActionConfig::Nothing,
        }
    }
}

impl Default for BrEdrDefaults {
    fn default() -> (r: Self)
        ensures
            r == BrEdrDefaults::spec_default(),
    {
        BrEdrDefaults {
            poll_interval_ms: 1000,
            disconnect_poll_interval_ms: 5000,
            rpl_threshold: BR_EDR_RPL_THRESHOLD,
            lock_count: 4,
            unlock_count: 4,
            kalman_q: DEFAULT_KALMAN_Q,
            kalman_r: BR_EDR_KALMAN_R,
            kalman_initial: BR_EDR_KALMAN_INITIAL,
            disconnect_action: DisconnectActionConfig::Nothing,
        }
    }
}

impl LeDefaults {
    /// The LE defaults: 1 s polls, 5 s while disconnected, threshold 60.0,
    /// counts of 8, q = 0.1, r = 8.0, initial estimate 40.0, no action on
    /// disconnect, fallback transmit power 0.
    pub open spec fn spec_default() -> LeDefaults {
        LeDefaults {
            poll_interval_ms: 1000,
            disconnect_poll_interval_ms: 5000,
            rpl_threshold: LE_RPL_THRESHOLD,
            lock_count: 8,
            unlock_count: 8,
            kalman_q: DEFAULT_KALMAN_Q,
            kalman_r: LE_KALMAN_R,
            kalman_initial: LE_KALMAN_INITIAL,
            disconnect_action: DisconnectActionConfig::Nothing,
            fallback_tx_power: 0,
        }
    }
}

impl Default for LeDefaults {
    fn default() -> (r: Self)
        ensures
            r == LeDefaults::spec_default(),
    {
        LeDefaults {
            poll_interval_ms: 1000,
            disconnect_poll_interval_ms: 5000,
            rpl_threshold: LE_RPL_THRESHOLD,
            lock_count: 8,
            unlock_count: 8,
            kalman_q: DEFAULT_KALMAN_Q,
            kalman_r: LE_KALMAN_R,
            kalman_initial: LE_KALMAN_INITIAL,
            disconnect_action: DisconnectActionConfig::Nothing,
            fallback_tx_power: 0,
        }
    }
}

impl Default for WakeConfig {
    fn default() -> (r: Self)
        ensures
            r == (WakeConfig { duration_secs: 3, mouse_interval_ms: 250, enter_interval_ms: 3000 }),
    {
        WakeConfig { duration_secs: 3, mouse_interval_ms: 250, enter_interval_ms: 3000 }
    }
}

impl Default for WebConfig {
    fn default() -> (r: Self)
        ensures
            r.enabled,
            r.port == DEFAULT_WEB_PORT,
            r.password_hash is None,
    {
        WebConfig { enabled: true, port: DEFAULT_WEB_PORT, password_hash: None }
    }
}

impl Default for BluetoothOverrides {
    fn default() -> (r: Self)
        ensures
            r == (BluetoothOverrides {
                adapter_index: None,
                poll_interval_ms: None,
                disconnect_poll_interval_ms: None,
            }),
    {
        BluetoothOverrides { adapter_index: None, poll_interval_ms: None, disconnect_poll_interval_ms: None }
    }
}

impl ProximityOverrides {
    /// No overrides.
    pub open spec fn spec_none() -> ProximityOverrides {
        ProximityOverrides {
            rpl_threshold: None,
            lock_count: None,
            unlock_count: None,
            kalman_q: None,
            kalman_r: None,
            kalman_initial: None,
            disconnect_action: None,
            fallback_tx_power: None,
        }
    }
}

impl Default for ProximityOverrides {
    fn default() -> (r: Self)
        ensures
            r == ProximityOverrides::spec_none(),
    {
        ProximityOverrides {
            rpl_threshold: None,
            lock_count: None,
            unlock_count: None,
            kalman_q: None,
            kalman_r: None,
            kalman_initial: None,
            disconnect_action: None,
            fallback_tx_power: None,
        }
    }
}

impl Default for DeviceEntry {
    fn default() -> (r: Self)
        ensures
            r.uid == 0,
            r.target_mac@ == Seq::<char>::empty(),
            r.address_type == AddressTypeConfig::BrEdr,
            r.name is None,
            r.bluetooth.adapter_index is None,
            r.bluetooth.poll_interval_ms is None,
            r.bluetooth.disconnect_poll_interval_ms is None,
            r.proximity == ProximityOverrides::spec_none(),
    {
        DeviceEntry {
            uid: 0,
            target_mac: String::new(),
            address_type: AddressTypeConfig::BrEdr,
            name: None,
            bluetooth: BluetoothOverrides::default(),
            proximity: ProximityOverrides::default(),
        }
    }
}

impl Config {
    /// The configuration with every default and no devices.
    pub open spec fn is_default(&self) -> bool {
        &&& self.daemon.mode == DaemonMode::Both
        &&& self.adapter_index == 0
        &&& self.br_edr == BrEdrDefaults::spec_default()
        &&& self.le == LeDefaults::spec_default()
        &&& self.wake == (WakeConfig { duration_secs: 3, mouse_interval_ms: 250, enter_interval_ms: 3000 })
        &&& self.web.enabled
        &&& self.web.port == DEFAULT_WEB_PORT
        &&& self.web.password_hash is None
        &&& self.devices@.len() == 0
    }
}

impl Default for Config {
    fn default() -> (r: Self)
        ensures
            r.is_default(),
    {
        Config {
            daemon: DaemonConfig::default(),
            adapter_index: 0,
            br_edr: BrEdrDefaults::default(),
            le: LeDefaults::default(),
            wake: WakeConfig::default(),
            web: WebConfig::default(),
            devices: Vec::new(),
        }
    }
}

impl Default for ProximityConfig {
    fn default() -> (r: Self)
        ensures
            r == (ProximityConfig {
                rpl_threshold: BR_EDR_RPL_THRESHOLD,
                lock_count: 4,
                unlock_count: 4,
                kalman_q: DEFAULT_KALMAN_Q,
                kalman_r: BR_EDR_KALMAN_R,
                kalman_initial: BR_EDR_KALMAN_INITIAL,
                disconnect_action: DisconnectActionConfig::Nothing,
                fallback_tx_power: 0,
            }),
    {
        let defaults = BrEdrDefaults::default();
        ProximityConfig {
            rpl_threshold: defaults.rpl_threshold,
            lock_count: defaults.lock_count,
            unlock_count: defaults.unlock_count,
            kalman_q: defaults.kalman_q,
            kalman_r: defaults.kalman_r,
            kalman_initial: defaults.kalman_initial,
            disconnect_action: defaults.disconnect_action,
            fallback_tx_power: 0,
        }
    }
}

/// The default configuration is valid.
pub proof fn lemma_default_config_valid(c: Config)
    requires
        c.is_default(),
    ensures
        c.valid(),
{
    assert(0x3FB9_9999_9999_999Au64 & 0x7FFF_FFFF_FFFF_FFFFu64 == 0x3FB9_9999_9999_999Au64)
        by (bit_vector);
    assert(0x4008_0000_0000_0000u64 & 0x7FFF_FFFF_FFFF_FFFFu64 == 0x4008_0000_0000_0000u64)
        by (bit_vector);
    assert(0x4020_0000_0000_0000u64 & 0x7FFF_FFFF_FFFF_FFFFu64 == 0x4020_0000_0000_0000u64)
        by (bit_vector);
    assert(0u64 & 0x7FFF_FFFF_FFFF_FFFFu64 == 0u64) by (bit_vector);
}

/// Who owns the configuration file, as far as the daemon looked.
#[derive(Debug, Clone, Copy, PartialEq, Eq, Structural)]
pub enum ConfigOwner {
    /// The owner is not checked (a development build).
    NotChecked,
    /// The file is owned by this user.
    Uid(u32),
    /// The file's owner could not be read.
    Unknown,
}

/// Whether the web UI starts, and why not.
#[derive(Debug, Clone, Copy, PartialEq, Eq, Structural)]
pub enum WebStart {
    Serve,
    /// Disabled in the configuration.
    Disabled,
    /// No password has been set.
    NoPassword,
    /// The configuration file is not owned by root.
    NotRootOwned,
    /// The configuration file's owner could not be read.
    OwnerUnknown,
}

/// The web UI starts only when enabled, with a password set, and with the
/// configuration file owned by root wherever the owner is checked.
pub open spec fn spec_web_start(enabled: bool, has_hash: bool, owner: ConfigOwner) -> WebStart {
    if !enabled {
        WebStart::Disabled
    } else if !has_hash {
        WebStart::NoPassword
    } else {
        match owner {
            ConfigOwner::Uid(u) => if u != 0 {
                WebStart::NotRootOwned
            } else {
                WebStart::Serve
            },
            ConfigOwner::Unknown => WebStart::OwnerUnknown,
            ConfigOwner::NotChecked => WebStart::Serve,
        }
    }
}

impl WebConfig {
    /// Whether the web UI starts with these settings and this owner of the
    /// configuration file.
    pub fn server_start(&self, owner: ConfigOwner) -> (r: WebStart)
        ensures
            r == spec_web_start(self.enabled, self.password_hash is Some, owner),
    {
        if !self.enabled {
            return WebStart::Disabled;
        }
        if self.password_hash.is_none() {
            return WebStart::NoPassword;
        }
        match owner {
            ConfigOwner::Uid(u) => if u != 0 {
                WebStart::NotRootOwned
            } else {
                WebStart::Serve
            },
            ConfigOwner::Unknown => WebStart::OwnerUnknown,
            ConfigOwner::NotChecked => WebStart::Serve,
        }
    }
}


/// Resolving a device's proximity settings: each setting is the device's own
/// override where it has one, otherwise the default of its transport (the
/// `br_edr` section for a classic device, the `le` section for an LE one); a
/// classic device without an override of the fallback transmit power gets 0.
pub proof fn lemma_proximity_overrides_win(c: Config, d: DeviceEntry)
    ensures
        d.proximity.rpl_threshold matches Some(x) ==> spec_proximity_for_device(c, d).rpl_threshold == x,
        d.proximity.rpl_threshold is None && d.address_type == AddressTypeConfig::BrEdr ==> spec_proximity_for_device(c, d).rpl_threshold == c.br_edr.rpl_threshold,
        d.proximity.rpl_threshold is None && d.address_type != AddressTypeConfig::BrEdr ==> spec_proximity_for_device(c, d).rpl_threshold == c.le.rpl_threshold,
        d.proximity.lock_count matches Some(x) ==> spec_proximity_for_device(c, d).lock_count == x,
        d.proximity.lock_count is None && d.address_type == AddressTypeConfig::BrEdr ==> spec_proximity_for_device(c, d).lock_count == c.br_edr.lock_count,
        d.proximity.lock_count is None && d.address_type != AddressTypeConfig::BrEdr ==> spec_proximity_for_device(c, d).lock_count == c.le.lock_count,
        d.proximity.unlock_count matches Some(x) ==> spec_proximity_for_device(c, d).unlock_count == x,
        d.proximity.unlock_count is None && d.address_type == AddressTypeConfig::BrEdr ==> spec_proximity_for_device(c, d).unlock_count == c.br_edr.unlock_count,
        d.proximity.unlock_count is None && d.address_type != AddressTypeConfig::BrEdr ==> spec_proximity_for_device(c, d).unlock_count == c.le.unlock_count,
        d.proximity.kalman_q matches Some(x) ==> spec_proximity_for_device(c, d).kalman_q == x,
        d.proximity.kalman_q is None && d.address_type == AddressTypeConfig::BrEdr ==> spec_proximity_for_device(c, d).kalman_q == c.br_edr.kalman_q,
        d.proximity.kalman_q is None && d.address_type != AddressTypeConfig::BrEdr ==> spec_proximity_for_device(c, d).kalman_q == c.le.kalman_q,
        d.proximity.kalman_r matches Some(x) ==> spec_proximity_for_device(c, d).kalman_r == x,
        d.proximity.kalman_r is None && d.address_type == AddressTypeConfig::BrEdr ==> spec_proximity_for_device(c, d).kalman_r == c.br_edr.kalman_r,
        d.proximity.kalman_r is None && d.address_type != AddressTypeConfig::BrEdr ==> spec_proximity_for_device(c, d).kalman_r == c.le.kalman_r,
        d.proximity.kalman_initial matches Some(x) ==> spec_proximity_for_device(c, d).kalman_initial == x,
        d.proximity.kalman_initial is None && d.address_type == AddressTypeConfig::BrEdr ==> spec_proximity_for_device(c, d).kalman_initial == c.br_edr.kalman_initial,
        d.proximity.kalman_initial is None && d.address_type != AddressTypeConfig::BrEdr ==> spec_proximity_for_device(c, d).kalman_initial == c.le.kalman_initial,
        d.proximity.disconnect_action matches Some(x) ==> spec_proximity_for_device(c, d).disconnect_action == x,
        d.proximity.disconnect_action is None && d.address_type == AddressTypeConfig::BrEdr ==> spec_proximity_for_device(c, d).disconnect_action == c.br_edr.disconnect_action,
        d.proximity.disconnect_action is None && d.address_type != AddressTypeConfig::BrEdr ==> spec_proximity_for_device(c, d).disconnect_action == c.le.disconnect_action,
        d.proximity.fallback_tx_power matches Some(x) ==> spec_proximity_for_device(c, d).fallback_tx_power == x,
        d.proximity.fallback_tx_power is None && d.address_type == AddressTypeConfig::BrEdr ==> spec_proximity_for_device(c, d).fallback_tx_power == 0,
        d.proximity.fallback_tx_power is None && d.address_type != AddressTypeConfig::BrEdr ==> spec_proximity_for_device(c, d).fallback_tx_power == c.le.fallback_tx_power,
{
}

/// Resolving a device's Bluetooth settings: its transport is its own, its
/// adapter is its override or the global adapter index, and each poll
/// interval is its override or its transport's default.
pub proof fn lemma_bluetooth_overrides_win(c: Config, d: DeviceEntry)
    ensures
        spec_bluetooth_for_device(c, d).address_type == d.address_type,
        d.bluetooth.adapter_index matches Some(x) ==> spec_bluetooth_for_device(c, d).adapter_index == x,
        d.bluetooth.adapter_index is None ==> spec_bluetooth_for_device(c, d).adapter_index == c.adapter_index,
        d.bluetooth.poll_interval_ms matches Some(x) ==> spec_bluetooth_for_device(c, d).poll_interval_ms == x,
        d.bluetooth.poll_interval_ms is None && d.address_type == AddressTypeConfig::BrEdr ==> spec_bluetooth_for_device(c, d).poll_interval_ms == c.br_edr.poll_interval_ms,
        d.bluetooth.poll_interval_ms is None && d.address_type != AddressTypeConfig::BrEdr ==> spec_bluetooth_for_device(c, d).poll_interval_ms == c.le.poll_interval_ms,
        d.bluetooth.disconnect_poll_interval_ms matches Some(x) ==> spec_bluetooth_for_device(c, d).disconnect_poll_interval_ms == x,
        d.bluetooth.disconnect_poll_interval_ms is None && d.address_type == AddressTypeConfig::BrEdr ==> spec_bluetooth_for_device(c, d).disconnect_poll_interval_ms == c.br_edr.disconnect_poll_interval_ms,
        d.bluetooth.disconnect_poll_interval_ms is None && d.address_type != AddressTypeConfig::BrEdr ==> spec_bluetooth_for_device(c, d).disconnect_poll_interval_ms == c.le.disconnect_poll_interval_ms,
{
}

/// A zero interval, count or port, or a noise covariance that is not a
/// positive number, anywhere in the global sections makes the configuration
/// out of range, so [`Config::validate`] refuses it with `OutOfRange`.
pub proof fn lemma_zero_settings_refused(c: Config)
    requires
        c.br_edr.poll_interval_ms == 0
            || c.br_edr.disconnect_poll_interval_ms == 0
            || c.br_edr.lock_count == 0
            || c.br_edr.unlock_count == 0
            || !f64_positive(c.br_edr.kalman_q)
            || !f64_positive(c.br_edr.kalman_r)
            || c.le.poll_interval_ms == 0
            || c.le.disconnect_poll_interval_ms == 0
            || c.le.lock_count == 0
            || c.le.unlock_count == 0
            || !f64_positive(c.le.kalman_q)
            || !f64_positive(c.le.kalman_r)
            || c.wake.duration_secs == 0
            || c.wake.mouse_interval_ms == 0
            || c.wake.enter_interval_ms == 0
            || c.web.port == 0,
    ensures
        !c.ranges_valid(),
        !c.valid(),
        check_with(c, c.devices@) == Some(ValidationError::OutOfRange),
{
}

/// A device override of a poll interval or count that is zero, or of a noise
/// covariance that is not positive, makes the configuration out of range.
pub proof fn lemma_zero_override_refused(c: Config, i: int)
    requires
        0 <= i < c.devices@.len(),
        c.devices@[i].bluetooth.poll_interval_ms == Some(0u64)
            || c.devices@[i].bluetooth.disconnect_poll_interval_ms == Some(0u64)
            || c.devices@[i].proximity.lock_count == Some(0u32)
            || c.devices@[i].proximity.unlock_count == Some(0u32)
            || (c.devices@[i].proximity.kalman_q matches Some(q) && !f64_positive(q))
            || (c.devices@[i].proximity.kalman_r matches Some(q) && !f64_positive(q)),
    ensures
        !c.ranges_valid(),
        check_with(c, c.devices@) == Some(ValidationError::OutOfRange),
{
    assert(!c.devices@[i].in_range());
}


/// With every value in range, a device whose `target_mac` is not six hex
/// pairs joined by `:` or `-` makes [`Config::validate`] refuse with
/// `InvalidMac`; with every address valid, two devices that name the same
/// six bytes make it refuse with `DuplicateMac`.
pub proof fn lemma_bad_addresses_refused(c: Config, i: int, j: int)
    requires
        c.ranges_valid(),
        0 <= i < c.devices@.len(),
        0 <= j < c.devices@.len(),
    ensures
        !mac_text_valid(encode_utf8(c.devices@[i].target_mac@)) ==> check_with(c, c.devices@) == Some(
            ValidationError::InvalidMac,
        ),
        c.macs_valid() && i != j && mac_text_bytes(encode_utf8(c.devices@[i].target_mac@)) == mac_text_bytes(
            encode_utf8(c.devices@[j].target_mac@),
        ) ==> check_with(c, c.devices@) == Some(ValidationError::DuplicateMac),
{
    if !mac_text_valid(encode_utf8(c.devices@[i].target_mac@)) {
        assert(!device_mac_valid(c.devices@[i]));
    }
    if c.macs_valid() && i != j && device_mac(c.devices@[i]) == device_mac(c.devices@[j]) {
        if i < j {
            assert(device_mac(c.devices@[i]) == device_mac(c.devices@[j]));
        } else {
            assert(device_mac(c.devices@[j]) == device_mac(c.devices@[i]));
        }
    }
}

} // verus!
