//! The daemon's live view of its devices, and the answer it gives to a
//! proximity query from the PAM module.

use vstd::prelude::*;
use crate::config::{Config, DeviceEntry};
use crate::protocol::{parse_query, ProximityStatus, QueryResponse, QUERY_SIZE};
use crate::proximity::{Phase, State};
use crate::string_map::StringMap;

verus! {

/// Where a device is, as shown to users.
#[derive(Debug, Clone, Copy, PartialEq, Eq, Structural)]
pub enum ProximityPhase {
    Near,
    Far,
    Disconnected,
}

impl ProximityPhase {
    /// The lower-case name of the phase.
    pub open spec fn name(self) -> Seq<char> {
        match self {
            ProximityPhase::Near => "near"@,
            ProximityPhase::Far => "far"@,
            ProximityPhase::Disconnected => "disconnected"@,
        }
    }

    /// `near`, `far` or `disconnected`.
    pub fn to_string(&self) -> (s: String)
        ensures
            s@ == self.name(),
    {
        match self {
            ProximityPhase::Near => String::from_str("near"),
            ProximityPhase::Far => String::from_str("far"),
            ProximityPhase::Disconnected => String::from_str("disconnected"),
        }
    }
}

/// The phase that a device's state machine is in.
pub open spec fn spec_phase_of(s: State) -> ProximityPhase {
    match s.phase {
        Phase::Near { .. } => ProximityPhase::Near,
        Phase::Far { .. } => ProximityPhase::Far,
        Phase::Disconnected => ProximityPhase::Disconnected,
    }
}

pub fn phase_of(s: &State) -> (p: ProximityPhase)
    ensures
        p == spec_phase_of(*s),
{
    match s.phase {
        Phase::Near { .. } => ProximityPhase::Near,
        Phase::Far { .. } => ProximityPhase::Far,
        Phase::Disconnected => ProximityPhase::Disconnected,
    }
}

/// The last known state of one device. Path losses are `f64` bits.
#[derive(Debug, Clone, Copy, PartialEq, Eq, Structural)]
pub struct DeviceStatus {
    pub rpl: Option<u64>,
    pub raw_rpl: Option<u64>,
    pub phase: ProximityPhase,
    pub connected: bool,
}

/// What a device monitor reports after each poll. Path losses are `f64` bits.
#[derive(Debug, Clone)]
pub struct DeviceReport {
    pub target_mac: String,
    pub phase: ProximityPhase,
    pub rpl: Option<u64>,
    pub raw_rpl: Option<u64>,
    pub connected: bool,
}

/// The status of every monitored device, by MAC address text.
pub struct DaemonStatus {
    pub devices: StringMap<DeviceStatus>,
    pub any_near: bool,
}

/// Some device in the map, named in `macs`, is in phase `p`.
pub open spec fn any_in_phase(
    devices: Map<Seq<char>, DeviceStatus>,
    macs: Seq<Seq<char>>,
    p: ProximityPhase,
) -> bool {
    exists|k: Seq<char>| #[trigger] devices.contains_key(k) && macs.contains(k) && devices[k].phase == p
}

/// The texts of a list of strings.
pub open spec fn texts(v: Seq<String>) -> Seq<Seq<char>> {
    v.map_values(|s: String| s@)
}

/// `macs` holds `k`.
fn list_contains(macs: &[String], k: &String) -> (r: bool)
    ensures
        r == texts(macs@).contains(k@),
{
    let n = macs.len();
    let mut i: usize = 0;
    while i < n
        invariant
            n == macs@.len(),
            0 <= i <= n,
            forall|j: int| 0 <= j < i ==> macs@[j]@ != k@,
        decreases n - i,
    {
        if macs[i] == *k {
            assert(texts(macs@)[i as int] == k@);
            return true;
        }
        i = i + 1;
    }
    assert forall|j: int| 0 <= j < texts(macs@).len() implies texts(macs@)[j] != k@ by {
        assert(texts(macs@)[j] == macs@[j]@);
    }
    false
}

impl DaemonStatus {
    /// No devices yet.
    pub fn new(any_near: bool) -> (s: DaemonStatus)
        ensures
            s.devices@ == Map::<Seq<char>, DeviceStatus>::empty(),
            s.any_near == any_near,
    {
        DaemonStatus { devices: StringMap::new(), any_near }
    }

    fn any_in(&self, user_macs: &[String], p: ProximityPhase) -> (r: bool)
        ensures
            r == any_in_phase(self.devices@, texts(user_macs@), p),
    {
        let entries = self.devices.entries();
        let n = entries.len();
        let mut i: usize = 0;
        while i < n
            invariant
                n == entries@.len(),
                0 <= i <= n,
                crate::string_map::keys_distinct(entries@),
                self.devices@ == crate::string_map::entries_map(entries@),
                forall|j: int|
                    0 <= j < i ==> !(texts(user_macs@).contains(#[trigger] entries@[j].0@)
                        && entries@[j].1.phase == p),
            decreases n - i,
        {
            let (mac, dev) = &entries[i];
            if dev.phase == p && list_contains(user_macs, mac) {
                proof {
                    crate::string_map::lemma_entries_map_at(entries@, i as int);
                }
                assert(self.devices@.contains_key(entries@[i as int].0@));
                return true;
            }
            i = i + 1;
        }
        assert forall|k: Seq<char>|
            #[trigger] self.devices@.contains_key(k) && texts(user_macs@).contains(k) implies self.devices@[k].phase
            != p by {
            let j = choose|j: int| 0 <= j < entries@.len() && #[trigger] entries@[j].0@ == k;
            crate::string_map::lemma_entries_map_at(entries@, j);
        }
        false
    }

    /// Some device of the user is near.
    pub fn is_any_near(&self, user_macs: &[String]) -> (r: bool)
        ensures
            r == any_in_phase(self.devices@, texts(user_macs@), ProximityPhase::Near),
    {
        self.any_in(user_macs, ProximityPhase::Near)
    }

    /// Some device of the user is far.
    pub fn is_any_far(&self, user_macs: &[String]) -> (r: bool)
        ensures
            r == any_in_phase(self.devices@, texts(user_macs@), ProximityPhase::Far),
    {
        self.any_in(user_macs, ProximityPhase::Far)
    }

    /// Forgets every device and assumes a near user until reports arrive.
    pub fn reset_daemon_state(&mut self)
        ensures
            final(self).devices@ == Map::<Seq<char>, DeviceStatus>::empty(),
            final(self).any_near,
    {
        self.devices.clear();
        self.any_near = true;
    }

    /// Records a device's latest status.
    pub fn update_device(&mut self, mac: String, status: DeviceStatus, any_near: bool)
        ensures
            final(self).devices@ == old(self).devices@.insert(mac@, status),
            final(self).any_near == any_near,
    {
        self.devices.insert(mac, status);
        self.any_near = any_near;
    }
}

/// The MAC address texts of a user's devices, in configuration order.
pub open spec fn macs_of_user(devices: Seq<DeviceEntry>, uid: u32) -> Seq<Seq<char>>
    decreases devices.len(),
{
    if devices.len() == 0 {
        Seq::empty()
    } else {
        let rest = macs_of_user(devices.drop_last(), uid);
        if devices.last().uid == uid {
            rest.push(devices.last().target_mac@)
        } else {
            rest
        }
    }
}

/// The MAC address texts of the devices configured for a user.
pub fn user_device_macs(config: &Config, uid: u32) -> (macs: Vec<String>)
    ensures
        texts(macs@) == macs_of_user(config.devices@, uid),
{
    let n = config.devices.len();
    let mut out: Vec<String> = Vec::new();
    let mut i: usize = 0;
    while i < n
        invariant
            n == config.devices@.len(),
            0 <= i <= n,
            texts(out@) == macs_of_user(config.devices@.take(i as int), uid),
        decreases n - i,
    {
        let d = &config.devices[i];
        proof {
            assert(config.devices@.take(i + 1).drop_last() =~= config.devices@.take(i as int));
            assert(config.devices@.take(i + 1).last() == config.devices@[i as int]);
        }
        if d.uid == uid {
            let ghost before = out@;
            out.push(d.target_mac.clone());
            assert(texts(out@) =~= texts(before).push(d.target_mac@));
        }
        i = i + 1;
    }
    assert(config.devices@.take(n as int) =~= config.devices@);
    out
}

/// The status reported for a user: unknown without devices, otherwise near
/// if any device is near, else far if any is far, else disconnected.
pub open spec fn spec_user_status(devices: Map<Seq<char>, DeviceStatus>, macs: Seq<Seq<char>>) -> ProximityStatus {
    if macs.len() == 0 {
        ProximityStatus::Unknown
    } else if any_in_phase(devices, macs, ProximityPhase::Near) {
        ProximityStatus::Near
    } else if any_in_phase(devices, macs, ProximityPhase::Far) {
        ProximityStatus::Far
    } else {
        ProximityStatus::Disconnected
    }
}

pub fn user_status(status: &DaemonStatus, user_macs: &[String]) -> (s: ProximityStatus)
    ensures
        s == spec_user_status(status.devices@, texts(user_macs@)),
{
    if user_macs.len() == 0 {
        ProximityStatus::Unknown
    } else if status.is_any_near(user_macs) {
        ProximityStatus::Near
    } else if status.is_any_far(user_macs) {
        ProximityStatus::Far
    } else {
        ProximityStatus::Disconnected
    }
}

/// The user id of the only peer that may query the daemon: root.
pub const QUERY_PEER_UID: u32 = 0;

/// Answers a query from a peer running as `peer_uid`: `None` for a peer
/// other than root or a query of an unknown kind, otherwise the
/// status of the queried user's devices, stamped with `now_secs`. The
/// daemon tracks several devices per user, so the answer carries no single
/// path loss; its `rpl` field is zero.
pub fn answer_query(
    peer_uid: u32,
    query: &[u8; QUERY_SIZE],
    config: &Config,
    status: &DaemonStatus,
    now_secs: u64,
) -> (r: Option<QueryResponse>)
    ensures
        peer_uid != QUERY_PEER_UID ==> r is None,
        peer_uid == QUERY_PEER_UID ==> match crate::protocol::spec_parse_query(query@) {
            None => r is None,
            Some(uid) => r == Some(
                QueryResponse {
                    status: spec_user_status(status.devices@, macs_of_user(config.devices@, uid)).spec_byte(),
                    rpl: 0,
                    timestamp_secs: now_secs,
                },
            ),
        },
{
    if peer_uid != QUERY_PEER_UID {
        return None;
    }
    match parse_query(query) {
        None => None,
        Some(uid) => {
            let macs = user_device_macs(config, uid);
            let st = user_status(status, macs.as_slice());
            Some(QueryResponse { status: st.to_byte(), rpl: 0, timestamp_secs: now_secs })
        },
    }
}

} // verus!
