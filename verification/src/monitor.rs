//! The daemon's supervision logic: which devices to monitor for the active
//! user, what each poll of a device yields, and when the session is locked
//! or unlocked from the devices' wishes.

use vstd::prelude::*;
use crate::config::{
    device_mac, device_mac_valid, spec_bluetooth_for_device, spec_proximity_for_device,
    BluetoothConfig, Config, DaemonMode, DeviceEntry, DisconnectActionConfig, ProximityConfig,
};
use crate::mac::Mac;
use crate::proximity::{step, Action, Reading, State};
use crate::status::{phase_of, spec_phase_of, DeviceReport, ProximityPhase};

verus! {

/// A device to monitor, with its resolved settings.
#[derive(Debug, Clone, Copy)]
pub struct MonitoredDevice {
    pub mac: Mac,
    pub bluetooth: BluetoothConfig,
    pub proximity: ProximityConfig,
}

/// Some device of the plan has this address.
pub open spec fn plan_has_mac(plan: Seq<DeviceEntry>, m: Seq<u8>) -> bool {
    exists|i: int| 0 <= i < plan.len() && #[trigger] device_mac(plan[i]) == m
}

/// The user's devices to monitor, in configuration order: those whose
/// address is valid, each address once (its first entry wins).
pub open spec fn monitor_plan(devices: Seq<DeviceEntry>, uid: u32) -> Seq<DeviceEntry>
    decreases devices.len(),
{
    if devices.len() == 0 {
        Seq::empty()
    } else {
        let p = monitor_plan(devices.drop_last(), uid);
        let d = devices.last();
        if d.uid == uid && device_mac_valid(d) && !plan_has_mac(p, device_mac(d)) {
            p.push(d)
        } else {
            p
        }
    }
}

/// The monitored devices stand for the plan entries.
pub open spec fn monitors_plan(c: Config, r: Seq<MonitoredDevice>, plan: Seq<DeviceEntry>) -> bool {
    &&& r.len() == plan.len()
    &&& forall|i: int|
        0 <= i < r.len() ==> {
            &&& #[trigger] r[i].mac@ == device_mac(plan[i])
            &&& r[i].bluetooth == spec_bluetooth_for_device(c, plan[i])
            &&& r[i].proximity == spec_proximity_for_device(c, plan[i])
        }
}

/// The devices to monitor for the active user.
pub fn devices_to_monitor(config: &Config, uid: u32) -> (r: Vec<MonitoredDevice>)
    ensures
        monitors_plan(*config, r@, monitor_plan(config.devices@, uid)),
        forall|i: int, j: int| 0 <= i < j < r@.len() ==> #[trigger] r@[i].mac@ != #[trigger] r@[j].mac@,
{
    let n = config.devices.len();
    let mut out: Vec<MonitoredDevice> = Vec::new();
    let mut i: usize = 0;
    while i < n
        invariant
            n == config.devices@.len(),
            0 <= i <= n,
            monitors_plan(*config, out@, monitor_plan(config.devices@.take(i as int), uid)),
        decreases n - i,
    {
        let ghost plan = monitor_plan(config.devices@.take(i as int), uid);
        proof {
            assert(config.devices@.take(i + 1).drop_last() =~= config.devices@.take(i as int));
            assert(config.devices@.take(i + 1).last() == config.devices@[i as int]);
        }
        let d = &config.devices[i];
        if d.uid == uid {
            if let Ok(mac) = Mac::parse(d.target_mac.as_str()) {
                let mut seen = false;
                let mut k: usize = 0;
                while k < out.len()
                    invariant
                        0 <= k <= out@.len(),
                        monitors_plan(*config, out@, plan),
                        mac@ == device_mac(*d),
                        seen == exists|j: int| 0 <= j < k && #[trigger] device_mac(plan[j]) == mac@,
                    decreases out@.len() - k,
                {
                    if out[k].mac == mac {
                        seen = true;
                    }
                    proof {
                        if seen {
                            if out@[k as int].mac@ == mac@ {
                                assert(device_mac(plan[k as int]) == mac@);
                            }
                        }
                        if exists|j: int| 0 <= j < k + 1 && #[trigger] device_mac(plan[j]) == mac@ {
                            let j = choose|j: int| 0 <= j < k + 1 && #[trigger] device_mac(plan[j]) == mac@;
                            if j == k {
                                assert(out@[k as int].mac@ == mac@);
                            }
                        }
                    }
                    k = k + 1;
                }
                assert(seen == plan_has_mac(plan, mac@));
                if !seen {
                    let m = MonitoredDevice {
                        mac,
                        bluetooth: config.bluetooth_for_device(d),
                        proximity: config.proximity_for_device(d),
                    };
                    let ghost before = out@;
                    out.push(m);
                    assert forall|j: int| 0 <= j < out@.len() implies {
                        &&& #[trigger] out@[j].mac@ == device_mac(plan.push(*d)[j])
                        &&& out@[j].bluetooth == spec_bluetooth_for_device(*config, plan.push(*d)[j])
                        &&& out@[j].proximity == spec_proximity_for_device(*config, plan.push(*d)[j])
                    } by {
                        if j < before.len() {
                            assert(out@[j] == before[j]);
                            assert(plan.push(*d)[j] == plan[j]);
                        } else {
                            assert(j == before.len());
                            assert(out@[j] == m);
                            assert(plan.push(*d)[j] == *d);
                        }
                    }
                }
            }
        }
        i = i + 1;
    }
    assert(config.devices@.take(n as int) =~= config.devices@);
    proof {
        lemma_plan_distinct(config.devices@, uid);
        let plan = monitor_plan(config.devices@, uid);
        assert forall|i: int, j: int| 0 <= i < j < out@.len() implies #[trigger] out@[i].mac@ != #[trigger] out@[j].mac@ by {
            assert(out@[i].mac@ == device_mac(plan[i]));
            assert(out@[j].mac@ == device_mac(plan[j]));
        }
    }
    out
}

/// The action a device's state machine takes when its connection is lost.
pub open spec fn spec_disconnect_action(c: DisconnectActionConfig) -> Action {
    match c {
        DisconnectActionConfig::Lock => Action::Lock,
        DisconnectActionConfig::Unlock => Action::Unlock,
        DisconnectActionConfig::Nothing => Action::Nothing,
    }
}

/// A fresh state machine for a device with these settings.
pub fn device_state(prox: &ProximityConfig) -> (s: State)
    ensures
        s == State::new_spec(spec_disconnect_action(prox.disconnect_action)),
        s.wf(),
{
    let a = match prox.disconnect_action {
        DisconnectActionConfig::Lock => Action::Lock,
        DisconnectActionConfig::Unlock => Action::Unlock,
        DisconnectActionConfig::Nothing => Action::Nothing,
    };
    State::new(a)
}

/// The reading that a poll gives: a path loss when connection information
/// came back (filtered path loss and raw path loss, as `f64` bits), a lost
/// connection otherwise.
pub open spec fn poll_reading(poll: Option<(u64, u64)>) -> Reading {
    match poll {
        Some((filtered, _raw)) => Reading::Rpl(filtered),
        None => Reading::ConnectionLost,
    }
}

/// The poll interval to switch to when the device's connection state
/// changed: the slower disconnected interval once it is lost, the normal
/// one once it is back; `None` when it did not change.
pub open spec fn spec_next_interval(bt: BluetoothConfig, was_disconnected: bool, is_disconnected: bool) -> Option<u64> {
    if was_disconnected == is_disconnected {
        None
    } else if is_disconnected {
        Some(bt.disconnect_poll_interval_ms)
    } else {
        Some(bt.poll_interval_ms)
    }
}

/// The action that a device passes on to the supervisor: a lock or an
/// unlock; a step that does nothing is not passed on.
pub open spec fn forwarded(a: Action) -> Option<Action> {
    if a == Action::Nothing {
        None
    } else {
        Some(a)
    }
}

/// Feeds one poll of a device to its state machine. Returns the report for
/// the rest of the daemon, the new poll interval if it changes, and the
/// action to pass on to the supervisor, if any.
pub fn process_poll(state: &mut State, target_mac: &String, poll: Option<(u64, u64)>, bt: &BluetoothConfig) -> (r: (
    DeviceReport,
    Option<u64>,
    Option<Action>,
))
    requires
        old(state).wf(),
    ensures
        *final(state) == step(*old(state), poll_reading(poll)).0,
        final(state).wf(),
        r.0.target_mac@ == target_mac@,
        r.0.phase == spec_phase_of(*final(state)),
        r.0.rpl == (match poll {
            Some((f, _)) => Some(f),
            None => None::<u64>,
        }),
        r.0.raw_rpl == (match poll {
            Some((_, raw)) => Some(raw),
            None => None::<u64>,
        }),
        r.0.connected == poll is Some,
        r.1 == spec_next_interval(*bt, old(state).phase is Disconnected, final(state).phase is Disconnected),
        r.2 == forwarded(step(*old(state), poll_reading(poll)).1),
{
    proof {
        crate::proximity::lemma_step_preserves_wf(*state, poll_reading(poll));
    }
    let (reading, rpl, raw_rpl, connected) = match poll {
        Some((filtered, raw)) => (Reading::Rpl(filtered), Some(filtered), Some(raw), true),
        None => (Reading::ConnectionLost, None, None, false),
    };
    let was_disconnected = state.is_disconnected();
    let action = state.transition(reading);
    let is_disconnected = state.is_disconnected();
    let report = DeviceReport {
        target_mac: target_mac.clone(),
        phase: phase_of(state),
        rpl,
        raw_rpl,
        connected,
    };
    let next = if was_disconnected == is_disconnected {
        None
    } else if is_disconnected {
        Some(bt.disconnect_poll_interval_ms)
    } else {
        Some(bt.poll_interval_ms)
    };
    let passed_on = match action {
        Action::Nothing => None,
        a => Some(a),
    };
    (report, next, passed_on)
}

/// The raw relative path loss of one reading: the transmit power less the
/// received signal strength, both in dBm.
pub fn raw_path_loss(rssi: i8, tx_power: i8) -> (r: i16)
    ensures
        r == tx_power - rssi,
{
    tx_power as i16 - rssi as i16
}

/// What the supervisor asks of the login session.
#[derive(Debug, Clone, Copy, PartialEq, Eq, Structural)]
pub enum SessionCommand {
    Nothing,
    Lock,
    /// Wake the screen, then unlock.
    Unlock,
}

/// The supervisor acts on the session in these modes.
pub open spec fn mode_locks(m: DaemonMode) -> bool {
    m == DaemonMode::Both || m == DaemonMode::LockOnly
}

/// What each device last asked for, whether the user was last taken to be
/// near, and the daemon's mode.
pub struct LockCoordinator {
    wants: Vec<(Mac, Action)>,
    was_near: bool,
    mode: DaemonMode,
}

/// The abstract state of a [`LockCoordinator`].
pub struct CoordinatorView {
    pub wants: Seq<(Seq<u8>, Action)>,
    pub was_near: bool,
    pub mode: DaemonMode,
}

/// Some device wants the session unlocked.
pub open spec fn some_unlock(wants: Seq<(Seq<u8>, Action)>) -> bool {
    exists|i: int| 0 <= i < wants.len() && #[trigger] wants[i].1 == Action::Unlock
}

/// The addresses are pairwise distinct.
pub open spec fn wants_distinct(wants: Seq<(Seq<u8>, Action)>) -> bool {
    forall|i: int, j: int| 0 <= i < j < wants.len() ==> #[trigger] wants[i].0 != #[trigger] wants[j].0
}

/// A position of an entry for `mac`, where there is one.
pub open spec fn wish_index(wants: Seq<(Seq<u8>, Action)>, mac: Seq<u8>) -> int {
    choose|i: int| 0 <= i < wants.len() && #[trigger] wants[i].0 == mac
}

/// Records a device's wish: its entry is replaced, or appended for a device
/// not seen before.
pub open spec fn record_wish(wants: Seq<(Seq<u8>, Action)>, mac: Seq<u8>, a: Action) -> Seq<(Seq<u8>, Action)> {
    if exists|i: int| 0 <= i < wants.len() && #[trigger] wants[i].0 == mac {
        wants.update(wish_index(wants, mac), (mac, a))
    } else {
        wants.push((mac, a))
    }
}

/// One event of the supervisor: a device's wish, and the command it gives.
pub open spec fn coordinate(s: CoordinatorView, mac: Seq<u8>, a: Action) -> (CoordinatorView, SessionCommand) {
    let wants = record_wish(s.wants, mac, a);
    if !mode_locks(s.mode) {
        (CoordinatorView { wants, ..s }, SessionCommand::Nothing)
    } else {
        let near = some_unlock(wants);
        let cmd = if s.was_near && !near {
            SessionCommand::Lock
        } else if !s.was_near && near {
            SessionCommand::Unlock
        } else {
            SessionCommand::Nothing
        };
        (CoordinatorView { wants, was_near: near, mode: s.mode }, cmd)
    }
}

/// The index of the entry for `mac`, if any.
fn position_of_wish(wants: &Vec<(Mac, Action)>, mac: &Mac) -> (r: Option<usize>)
    ensures
        r matches Some(k) ==> k < wants@.len() && wants@[k as int].0@ == mac@,
        r is None ==> forall|j: int| 0 <= j < wants@.len() ==> wants@[j].0@ != mac@,
{
    let n = wants.len();
    let mut i: usize = 0;
    while i < n
        invariant
            n == wants@.len(),
            0 <= i <= n,
            forall|j: int| 0 <= j < i ==> wants@[j].0@ != mac@,
        decreases n - i,
    {
        if wants[i].0 == *mac {
            return Some(i);
        }
        i = i + 1;
    }
    None
}

impl LockCoordinator {
    pub closed spec fn view(&self) -> CoordinatorView {
        CoordinatorView {
            wants: self.wants@.map_values(|e: (Mac, Action)| (e.0@, e.1)),
            was_near: self.was_near,
            mode: self.mode,
        }
    }

    #[verifier::type_invariant]
    spec fn inv(&self) -> bool {
        wants_distinct(self.view().wants)
    }

    /// The initial wants: every monitored device asks for the session to be
    /// unlocked, and the user is taken to be near.
    pub open spec fn initial_view(macs: Seq<Seq<u8>>, mode: DaemonMode) -> CoordinatorView {
        CoordinatorView {
            wants: macs.map_values(|m: Seq<u8>| (m, Action::Unlock)),
            was_near: true,
            mode,
        }
    }

    /// Starts supervising devices with these distinct addresses.
    pub fn new(devices: &Vec<MonitoredDevice>, mode: DaemonMode) -> (c: LockCoordinator)
        requires
            forall|i: int, j: int| 0 <= i < j < devices@.len() ==> #[trigger] devices@[i].mac@ != #[trigger] devices@[j].mac@,
        ensures
            c.view() == LockCoordinator::initial_view(devices@.map_values(|d: MonitoredDevice| d.mac@), mode),
    {
        let n = devices.len();
        let mut wants: Vec<(Mac, Action)> = Vec::new();
        let mut i: usize = 0;
        while i < n
            invariant
                n == devices@.len(),
                0 <= i <= n,
                wants@.len() == i,
                forall|j: int| 0 <= j < i ==> #[trigger] wants@[j] == (devices@[j].mac, Action::Unlock),
            decreases n - i,
        {
            wants.push((devices[i].mac, Action::Unlock));
            i = i + 1;
        }
        let c = LockCoordinator { wants, was_near: true, mode };
        assert(c.view().wants =~= devices@.map_values(|d: MonitoredDevice| d.mac@).map_values(
            |m: Seq<u8>| (m, Action::Unlock),
        ));
        c
    }

    /// Records a device's wish and returns the command for the session.
    pub fn on_action(&mut self, mac: Mac, action: Action) -> (cmd: SessionCommand)
        ensures
            (final(self).view(), cmd) == coordinate(old(self).view(), mac@, action),
    {
        proof {
            use_type_invariant(&*self);
        }
        let ghost old_v = self.view();
        let found = position_of_wish(&self.wants, &mac);
        let mut wants: Vec<(Mac, Action)> = Vec::new();
        std::mem::swap(&mut wants, &mut self.wants);
        match found {
            Some(k) => {
                wants.set(k, (mac, action));
            },
            None => {
                wants.push((mac, action));
            },
        }
        proof {
            let nv = wants@.map_values(|e: (Mac, Action)| (e.0@, e.1));
            assert(nv =~= record_wish(old_v.wants, mac@, action)) by {
                if exists|j: int| 0 <= j < old_v.wants.len() && #[trigger] old_v.wants[j].0 == mac@ {
                    let c = choose|j: int| 0 <= j < old_v.wants.len() && #[trigger] old_v.wants[j].0 == mac@;
                    assert(found is Some);
                    let k = found->0;
                    assert(old_v.wants[k as int].0 == mac@);
                    if c != k {
                        if c < k {
                            assert(old_v.wants[c].0 != old_v.wants[k as int].0);
                        } else {
                            assert(old_v.wants[k as int].0 != old_v.wants[c].0);
                        }
                    }
                } else {
                    if found is Some {
                        assert(old_v.wants[found->0 as int].0 == mac@);
                    }
                }
            }
            assert(wants_distinct(nv)) by {
                assert forall|a: int, b: int| 0 <= a < b < nv.len() implies #[trigger] nv[a].0 != #[trigger] nv[b].0 by {
                    match found {
                        Some(k) => {
                            if a != k && b != k {
                                assert(old_v.wants[a].0 != old_v.wants[b].0);
                            } else if a == k {
                                assert(old_v.wants[a].0 == mac@);
                                assert(old_v.wants[a].0 != old_v.wants[b].0);
                                assert(nv[a].0 == mac@);
                                assert(nv[b].0 == old_v.wants[b].0);
                            } else {
                                assert(old_v.wants[a].0 != old_v.wants[b].0);
                            }
                        },
                        None => {
                            if b < old_v.wants.len() {
                                assert(old_v.wants[a].0 != old_v.wants[b].0);
                            } else {
                                assert(old_v.wants[a].0 != mac@);
                            }
                        },
                    }
                }
            }
        }
        self.wants = wants;
        if !(self.mode == DaemonMode::Both || self.mode == DaemonMode::LockOnly) {
            return SessionCommand::Nothing;
        }
        let m = self.wants.len();
        let mut near = false;
        let mut j: usize = 0;
        while j < m
            invariant
                m == self.wants@.len(),
                0 <= j <= m,
                near == exists|k: int| 0 <= k < j && #[trigger] self.wants@[k].1 == Action::Unlock,
            decreases m - j,
        {
            if self.wants[j].1 == Action::Unlock {
                near = true;
            }
            j = j + 1;
        }
        proof {
            let nv = self.view().wants;
            assert(near == some_unlock(nv)) by {
                if near {
                    let k = choose|k: int| 0 <= k < m && #[trigger] self.wants@[k].1 == Action::Unlock;
                    assert(nv[k].1 == Action::Unlock);
                }
                if some_unlock(nv) {
                    let k = choose|k: int| 0 <= k < nv.len() && #[trigger] nv[k].1 == Action::Unlock;
                    assert(self.wants@[k].1 == Action::Unlock);
                }
            }
        }
        let cmd = if self.was_near && !near {
            SessionCommand::Lock
        } else if !self.was_near && near {
            SessionCommand::Unlock
        } else {
            SessionCommand::Nothing
        };
        self.was_near = near;
        cmd
    }
}

/// The state after a sequence of device wishes.
pub open spec fn coordinate_run(s: CoordinatorView, events: Seq<(Seq<u8>, Action)>) -> CoordinatorView
    decreases events.len(),
{
    if events.len() == 0 {
        s
    } else {
        coordinate(coordinate_run(s, events.drop_last()), events.last().0, events.last().1).0
    }
}

/// Locks minus unlocks commanded over a sequence of device wishes.
pub open spec fn lock_balance(s: CoordinatorView, events: Seq<(Seq<u8>, Action)>) -> int
    decreases events.len(),
{
    if events.len() == 0 {
        0
    } else {
        let prev = coordinate_run(s, events.drop_last());
        let cmd = coordinate(prev, events.last().0, events.last().1).1;
        lock_balance(s, events.drop_last()) + if cmd == SessionCommand::Lock {
            1int
        } else if cmd == SessionCommand::Unlock {
            -1int
        } else {
            0int
        }
    }
}

/// Starting from a near user, lock and unlock commands alternate, beginning
/// with a lock: after any sequence of wishes there has been exactly one more
/// lock than unlocks when the user is taken to be away, and as many when
/// near. The mode never changes.
pub proof fn lemma_commands_alternate(s: CoordinatorView, events: Seq<(Seq<u8>, Action)>)
    requires
        s.was_near,
    ensures
        lock_balance(s, events) == if coordinate_run(s, events).was_near { 0int } else { 1int },
        coordinate_run(s, events).mode == s.mode,
    decreases events.len(),
{
    if events.len() > 0 {
        lemma_commands_alternate(s, events.drop_last());
    }
}

/// In a mode without locking the supervisor never acts on the session.
pub proof fn lemma_no_commands_without_locking(s: CoordinatorView, mac: Seq<u8>, a: Action)
    requires
        !mode_locks(s.mode),
    ensures
        coordinate(s, mac, a).1 == SessionCommand::Nothing,
        coordinate(s, mac, a).0.was_near == s.was_near,
{
}

/// A lock is commanded only when the last device wanting an unlock stops
/// wanting it, and an unlock only when one starts wanting it again.
pub proof fn lemma_command_causes(s: CoordinatorView, mac: Seq<u8>, a: Action)
    requires
        s.was_near == some_unlock(s.wants),
    ensures
        coordinate(s, mac, a).0.was_near == some_unlock(coordinate(s, mac, a).0.wants) || !mode_locks(s.mode),
        coordinate(s, mac, a).1 == SessionCommand::Lock ==> s.was_near && !some_unlock(coordinate(s, mac, a).0.wants),
        coordinate(s, mac, a).1 == SessionCommand::Unlock ==> !s.was_near && a == Action::Unlock,
{
    let w = record_wish(s.wants, mac, a);
    if coordinate(s, mac, a).1 == SessionCommand::Unlock {
        let k = choose|k: int| 0 <= k < w.len() && #[trigger] w[k].1 == Action::Unlock;
        if a != Action::Unlock {
            if exists|i: int| 0 <= i < s.wants.len() && #[trigger] s.wants[i].0 == mac {
                let c = choose|i: int| 0 <= i < s.wants.len() && #[trigger] s.wants[i].0 == mac;
                assert(k != c);
                assert(s.wants[k].1 == Action::Unlock);
            } else {
                assert(k < s.wants.len());
                assert(s.wants[k].1 == Action::Unlock);
            }
        }
    }
}

/// The planned devices belong to the user, have valid addresses, and no
/// address is planned twice.
pub proof fn lemma_plan_distinct(devices: Seq<DeviceEntry>, uid: u32)
    ensures
        forall|i: int| 0 <= i < monitor_plan(devices, uid).len() ==> #[trigger] monitor_plan(devices, uid)[i].uid == uid
            && device_mac_valid(monitor_plan(devices, uid)[i]),
        forall|i: int, j: int|
            0 <= i < j < monitor_plan(devices, uid).len() ==> #[trigger] device_mac(monitor_plan(devices, uid)[i])
                != #[trigger] device_mac(monitor_plan(devices, uid)[j]),
    decreases devices.len(),
{
    if devices.len() > 0 {
        lemma_plan_distinct(devices.drop_last(), uid);
        let p = monitor_plan(devices.drop_last(), uid);
        let d = devices.last();
        if d.uid == uid && device_mac_valid(d) && !plan_has_mac(p, device_mac(d)) {
            let q = p.push(d);
            assert forall|i: int, j: int| 0 <= i < j < q.len() implies #[trigger] device_mac(q[i]) != #[trigger] device_mac(q[j]) by {
                if j == p.len() {
                    assert(q[i] == p[i]);
                    assert(device_mac(p[i]) != device_mac(d));
                } else {
                    assert(q[i] == p[i] && q[j] == p[j]);
                }
            }
            assert forall|i: int| 0 <= i < q.len() implies #[trigger] q[i].uid == uid && device_mac_valid(q[i]) by {
                if i < p.len() {
                    assert(q[i] == p[i]);
                }
            }
            assert(monitor_plan(devices, uid) == q);
        } else {
            assert(monitor_plan(devices, uid) == p);
        }
    }
}


/// In both locking modes (`Both` and `LockOnly`), after a device's wish is
/// recorded: the wish stands in the table, every other device's wish is
/// kept, the user is taken to be near exactly when some device wants an
/// unlock, a near user is locked out as soon as no device wants an unlock,
/// and an away user is let back in as soon as one does.
pub proof fn lemma_locking_modes_act(s: CoordinatorView, mac: Seq<u8>, a: Action)
    requires
        s.mode == DaemonMode::Both || s.mode == DaemonMode::LockOnly,
    ensures
        exists|i: int|
            0 <= i < coordinate(s, mac, a).0.wants.len() && #[trigger] coordinate(s, mac, a).0.wants[i] == (
            mac,
            a,
        ),
        forall|i: int|
            0 <= i < s.wants.len() && s.wants[i].0 != mac ==> #[trigger] coordinate(s, mac, a).0.wants.contains(
                s.wants[i],
            ),
        coordinate(s, mac, a).0.was_near == exists|i: int|
            0 <= i < coordinate(s, mac, a).0.wants.len() && #[trigger] coordinate(s, mac, a).0.wants[i].1
                == Action::Unlock,
        s.was_near && (forall|i: int|
            0 <= i < coordinate(s, mac, a).0.wants.len() ==> #[trigger] coordinate(s, mac, a).0.wants[i].1
                != Action::Unlock) ==> coordinate(s, mac, a).1 == SessionCommand::Lock,
        !s.was_near && (exists|i: int|
            0 <= i < coordinate(s, mac, a).0.wants.len() && #[trigger] coordinate(s, mac, a).0.wants[i].1
                == Action::Unlock) ==> coordinate(s, mac, a).1 == SessionCommand::Unlock,
{
    let w = record_wish(s.wants, mac, a);
    if exists|i: int| 0 <= i < s.wants.len() && #[trigger] s.wants[i].0 == mac {
        let k = wish_index(s.wants, mac);
        assert(0 <= k < s.wants.len() && s.wants[k].0 == mac);
        assert(w =~= s.wants.update(k, (mac, a)));
        assert(w[k] == (mac, a));
        assert forall|i: int| 0 <= i < s.wants.len() && s.wants[i].0 != mac implies #[trigger] w.contains(
            s.wants[i],
        ) by {
            assert(i != k);
            assert(w[i] == s.wants[i]);
        }
    } else {
        assert(w[s.wants.len() as int] == (mac, a));
        assert forall|i: int| 0 <= i < s.wants.len() && s.wants[i].0 != mac implies #[trigger] w.contains(
            s.wants[i],
        ) by {
            assert(w[i] == s.wants[i]);
        }
    }
}

/// In `PamOnly` mode the supervisor never locks or unlocks the session.
pub proof fn lemma_pam_only_never_acts(s: CoordinatorView, mac: Seq<u8>, a: Action)
    requires
        s.mode == DaemonMode::PamOnly,
    ensures
        coordinate(s, mac, a).1 == SessionCommand::Nothing,
        coordinate(s, mac, a).0.was_near == s.was_near,
{
}

} // verus!
