//! The proximity state machine of one device: it turns path-loss readings
//! and lost connections into lock and unlock actions, with hysteresis.

use vstd::prelude::*;
use crate::floatbits::{f64_bits_ge, f64_ge};

verus! {

/// `f64` bits of 15.0: a reading at or above this path loss is "far".
pub const RPL_THRESHOLD: u64 = 0x402E_0000_0000_0000;

/// Consecutive far readings that lock a near device.
pub const LOCK_COUNT: u32 = 5;

/// Consecutive near readings that unlock a far device.
pub const UNLOCK_COUNT: u32 = 5;

/// Where the device is thought to be, with the run of contrary readings seen.
#[derive(Debug, Clone, Copy, PartialEq, Eq, Structural)]
pub enum Phase {
    Near { consecutive_far: u32 },
    Far { consecutive_near: u32 },
    Disconnected,
}

/// One observation of the device.
#[derive(Debug, Clone, Copy, PartialEq, Eq, Structural)]
pub enum Reading {
    /// A relative path loss, as `f64` bits.
    Rpl(u64),
    ConnectionLost,
}

/// What the session should do.
#[derive(Debug, Clone, Copy, PartialEq, Eq, Structural)]
pub enum Action {
    Lock,
    Unlock,
    Nothing,
}

/// The state of one device.
#[derive(Debug, Clone, Copy, PartialEq, Eq, Structural)]
pub struct State {
    pub phase: Phase,
    /// The action taken when the connection is lost.
    pub disconnect_action: Action,
}

/// The reading is at or beyond the threshold.
pub open spec fn reading_is_far(rpl: u64) -> bool {
    f64_ge(rpl, RPL_THRESHOLD)
}

/// The state and action after a path-loss reading.
pub open spec fn after_rpl(s: State, is_far: bool) -> (State, Action) {
    match s.phase {
        Phase::Near { consecutive_far } => if is_far {
            if consecutive_far + 1 >= LOCK_COUNT {
                (State { phase: Phase::Far { consecutive_near: 0 }, ..s }, Action::Lock)
            } else {
                (
                    State { phase: Phase::Near { consecutive_far: (consecutive_far + 1) as u32 }, ..s },
                    Action::Nothing,
                )
            }
        } else {
            (State { phase: Phase::Near { consecutive_far: 0 }, ..s }, Action::Nothing)
        },
        Phase::Far { consecutive_near } => if !is_far {
            if consecutive_near + 1 >= UNLOCK_COUNT {
                (State { phase: Phase::Near { consecutive_far: 0 }, ..s }, Action::Unlock)
            } else {
                (
                    State { phase: Phase::Far { consecutive_near: (consecutive_near + 1) as u32 }, ..s },
                    Action::Nothing,
                )
            }
        } else {
            (State { phase: Phase::Far { consecutive_near: 0 }, ..s }, Action::Nothing)
        },
        Phase::Disconnected => if is_far {
            (State { phase: Phase::Far { consecutive_near: 0 }, ..s }, Action::Nothing)
        } else {
            (State { phase: Phase::Far { consecutive_near: 1 }, ..s }, Action::Nothing)
        },
    }
}

/// The state and action after a reading.
pub open spec fn step(s: State, r: Reading) -> (State, Action) {
    match r {
        Reading::Rpl(rpl) => after_rpl(s, reading_is_far(rpl)),
        Reading::ConnectionLost => (
            State { phase: Phase::Disconnected, ..s },
            if s.phase is Disconnected {
                Action::Nothing
            } else {
                s.disconnect_action
            },
        ),
    }
}

/// The reading would push a contrary-reading counter past `u32::MAX`.
pub open spec fn step_overflows(s: State, r: Reading) -> bool {
    match (s.phase, r) {
        (Phase::Near { consecutive_far }, Reading::Rpl(rpl)) => reading_is_far(rpl)
            && consecutive_far == u32::MAX,
        (Phase::Far { consecutive_near }, Reading::Rpl(rpl)) => !reading_is_far(rpl)
            && consecutive_near == u32::MAX,
        _ => false,
    }
}

impl State {
    /// The counters are below their thresholds, as every state reached from
    /// [`State::new`] keeps them.
    pub open spec fn wf(&self) -> bool {
        match self.phase {
            Phase::Near { consecutive_far } => consecutive_far < LOCK_COUNT,
            Phase::Far { consecutive_near } => consecutive_near < UNLOCK_COUNT,
            Phase::Disconnected => true,
        }
    }

    /// A fresh state: near, with no far readings seen.
    pub open spec fn new_spec(disconnect_action: Action) -> State {
        State { phase: Phase::Near { consecutive_far: 0 }, disconnect_action }
    }

    /// A device starts near, with no far readings seen.
    pub fn new(disconnect_action: Action) -> (s: State)
        ensures
            s == State::new_spec(disconnect_action),
            s.phase == (Phase::Near { consecutive_far: 0 }),
            s.disconnect_action == disconnect_action,
            s.wf(),
    {
        State { phase: Phase::Near { consecutive_far: 0 }, disconnect_action }
    }

    pub fn is_disconnected(&self) -> (r: bool)
        ensures
            r <==> self.phase is Disconnected,
    {
        match self.phase {
            Phase::Disconnected => true,
            _ => false,
        }
    }

    /// Feeds one reading to the state machine and returns the action to take.
    pub fn transition(&mut self, reading: Reading) -> (a: Action)
        requires
            !step_overflows(*old(self), reading),
        ensures
            (*final(self), a) == step(*old(self), reading),
    {
        match reading {
            Reading::Rpl(rpl) => {
                let is_far = f64_bits_ge(rpl, RPL_THRESHOLD);
                self.handle_rpl(is_far)
            },
            Reading::ConnectionLost => {
                let already_disconnected = self.is_disconnected();
                self.phase = Phase::Disconnected;
                if already_disconnected {
                    Action::Nothing
                } else {
                    self.disconnect_action
                }
            },
        }
    }

    fn handle_rpl(&mut self, is_far: bool) -> (a: Action)
        requires
            old(self).phase matches Phase::Near { consecutive_far } ==> (is_far ==> consecutive_far
                < u32::MAX),
            old(self).phase matches Phase::Far { consecutive_near } ==> (!is_far ==> consecutive_near
                < u32::MAX),
        ensures
            (*final(self), a) == after_rpl(*old(self), is_far),
            final(self).disconnect_action == old(self).disconnect_action,
            !(final(self).phase is Disconnected),
            old(self).wf() ==> final(self).wf(),
            old(self).phase is Near && !is_far ==> final(self).phase == (Phase::Near { consecutive_far: 0 }),
            old(self).phase is Far && is_far ==> final(self).phase == (Phase::Far { consecutive_near: 0 }),
    {
        match self.phase {
            Phase::Near { consecutive_far } => {
                if is_far {
                    let c = consecutive_far + 1;
                    if c >= LOCK_COUNT {
                        self.phase = Phase::Far { consecutive_near: 0 };
                        Action::Lock
                    } else {
                        self.phase = Phase::Near { consecutive_far: c };
                        Action::Nothing
                    }
                } else {
                    self.phase = Phase::Near { consecutive_far: 0 };
                    Action::Nothing
                }
            },
            Phase::Far { consecutive_near } => {
                if !is_far {
                    let c = consecutive_near + 1;
                    if c >= UNLOCK_COUNT {
                        self.phase = Phase::Near { consecutive_far: 0 };
                        Action::Unlock
                    } else {
                        self.phase = Phase::Far { consecutive_near: c };
                        Action::Nothing
                    }
                } else {
                    self.phase = Phase::Far { consecutive_near: 0 };
                    Action::Nothing
                }
            },
            Phase::Disconnected => {
                if is_far {
                    self.phase = Phase::Far { consecutive_near: 0 };
                } else {
                    self.phase = Phase::Far { consecutive_near: 1 };
                }
                Action::Nothing
            },
        }
    }
}

/// The state after a sequence of readings.
pub open spec fn run(s: State, rs: Seq<Reading>) -> State
    decreases rs.len(),
{
    if rs.len() == 0 {
        s
    } else {
        step(run(s, rs.drop_last()), rs.last()).0
    }
}

/// The action taken on the last of a non-empty sequence of readings.
pub open spec fn last_action(s: State, rs: Seq<Reading>) -> Action {
    step(run(s, rs.drop_last()), rs.last()).1
}

/// The reading is a path loss at or beyond the threshold.
pub open spec fn is_far_reading(r: Reading) -> bool {
    r matches Reading::Rpl(x) && reading_is_far(x)
}

/// The reading is a path loss below the threshold.
pub open spec fn is_near_reading(r: Reading) -> bool {
    r matches Reading::Rpl(x) && !reading_is_far(x)
}

/// The last `c` readings are far.
pub open spec fn ends_far(rs: Seq<Reading>, c: int) -> bool {
    c <= rs.len() && forall|j: int| rs.len() - c <= j < rs.len() ==> #[trigger] is_far_reading(rs[j])
}

/// The last `c` readings are near.
pub open spec fn ends_near(rs: Seq<Reading>, c: int) -> bool {
    c <= rs.len() && forall|j: int| rs.len() - c <= j < rs.len() ==> #[trigger] is_near_reading(rs[j])
}

/// A state's counter counts readings that were really seen.
pub open spec fn counters_match(s: State, rs: Seq<Reading>) -> bool {
    match s.phase {
        Phase::Near { consecutive_far } => ends_far(rs, consecutive_far as int),
        Phase::Far { consecutive_near } => ends_near(rs, consecutive_near as int),
        Phase::Disconnected => true,
    }
}

/// Every step keeps the counters below their thresholds, and from such a
/// state no counter can overflow.
pub proof fn lemma_step_preserves_wf(s: State, r: Reading)
    requires
        s.wf(),
    ensures
        !step_overflows(s, r),
        step(s, r).0.wf(),
        step(s, r).0.disconnect_action == s.disconnect_action,
{
}

/// A path-loss reading always leaves the device connected, keeps its
/// disconnect action and its counters below their thresholds; a near reading
/// clears the far counter of a near device, and a far reading clears the
/// near counter of a far device.
pub proof fn lemma_reading_keeps_connected(s: State, is_far: bool)
    requires
        s.wf(),
    ensures
        after_rpl(s, is_far).0.disconnect_action == s.disconnect_action,
        !(after_rpl(s, is_far).0.phase is Disconnected),
        after_rpl(s, is_far).0.wf(),
        s.phase is Near && !is_far ==> after_rpl(s, is_far).0.phase == (Phase::Near { consecutive_far: 0 }),
        s.phase is Far && is_far ==> after_rpl(s, is_far).0.phase == (Phase::Far { consecutive_near: 0 }),
{
}

/// Losing the connection twice takes the disconnect action at most once:
/// the second loss does nothing and the device stays disconnected.
pub proof fn lemma_no_duplicate_disconnect_action(s: State)
    ensures
        step(s, Reading::ConnectionLost).0.phase is Disconnected,
        step(step(s, Reading::ConnectionLost).0, Reading::ConnectionLost).1 == Action::Nothing,
        step(step(s, Reading::ConnectionLost).0, Reading::ConnectionLost).0.phase is Disconnected,
{
}

/// A reconnecting device is taken to be far and triggers no action; a near
/// first reading already counts toward the unlock.
pub proof fn lemma_reconnect_takes_no_action(s: State, rpl: u64)
    requires
        s.phase is Disconnected,
    ensures
        step(s, Reading::Rpl(rpl)).1 == Action::Nothing,
        step(s, Reading::Rpl(rpl)).0.phase == (Phase::Far {
            consecutive_near: if reading_is_far(rpl) { 0 } else { 1 },
        }),
{
}

/// Only a far reading or a lost connection locks, and only an unlock-action
/// loss or a near reading unlocks.
pub proof fn lemma_action_causes(s: State, r: Reading)
    requires
        s.wf(),
    ensures
        step(s, r).1 == Action::Lock ==> (s.phase == Phase::Near { consecutive_far: (LOCK_COUNT - 1) as u32 }
            && is_far_reading(r)) || (r is ConnectionLost && !(s.phase is Disconnected)
            && s.disconnect_action == Action::Lock),
        step(s, r).1 == Action::Unlock ==> (s.phase == Phase::Far {
            consecutive_near: (UNLOCK_COUNT - 1) as u32,
        } && is_near_reading(r)) || (r is ConnectionLost && !(s.phase is Disconnected)
            && s.disconnect_action == Action::Unlock),
{
}

/// Every step keeps the counters truthful about the readings seen.
pub proof fn lemma_counters_match_step(s: State, rs: Seq<Reading>, r: Reading)
    requires
        counters_match(s, rs),
    ensures
        counters_match(step(s, r).0, rs.push(r)),
{
    let rs2 = rs.push(r);
    assert(rs2.drop_last() =~= rs);
    match s.phase {
        Phase::Near { consecutive_far } => {
            if is_far_reading(r) {
                assert forall|j: int|
                    rs2.len() - (consecutive_far + 1) <= j < rs2.len() implies #[trigger] is_far_reading(
                    rs2[j],
                ) by {
                    if j < rs.len() {
                        assert(rs2[j] == rs[j]);
                    }
                }
            }
        },
        Phase::Far { consecutive_near } => {
            if is_near_reading(r) {
                assert forall|j: int|
                    rs2.len() - (consecutive_near + 1) <= j < rs2.len() implies #[trigger] is_near_reading(
                    rs2[j],
                ) by {
                    if j < rs.len() {
                        assert(rs2[j] == rs[j]);
                    }
                }
            }
        },
        Phase::Disconnected => {
            if is_near_reading(r) {
                assert(is_near_reading(rs2[rs2.len() - 1]));
            }
        },
    }
}

/// From a fresh state, the counters always count readings really seen.
pub proof fn lemma_counters_match_run(a: Action, rs: Seq<Reading>)
    ensures
        counters_match(run(State { phase: Phase::Near { consecutive_far: 0 }, disconnect_action: a }, rs), rs),
        run(State { phase: Phase::Near { consecutive_far: 0 }, disconnect_action: a }, rs).wf(),
    decreases rs.len(),
{
    let s0 = State { phase: Phase::Near { consecutive_far: 0 }, disconnect_action: a };
    if rs.len() > 0 {
        lemma_counters_match_run(a, rs.drop_last());
        lemma_counters_match_step(run(s0, rs.drop_last()), rs.drop_last(), rs.last());
        lemma_step_preserves_wf(run(s0, rs.drop_last()), rs.last());
        assert(rs.drop_last().push(rs.last()) =~= rs);
    }
}

/// A device that started near is locked on a reading only after
/// `LOCK_COUNT` consecutive far readings, that reading included.
pub proof fn lemma_lock_needs_far_run(a: Action, rs: Seq<Reading>)
    requires
        rs.len() > 0,
        rs.last() is Rpl,
        last_action(State { phase: Phase::Near { consecutive_far: 0 }, disconnect_action: a }, rs)
            == Action::Lock,
    ensures
        ends_far(rs, LOCK_COUNT as int),
{
    let s0 = State { phase: Phase::Near { consecutive_far: 0 }, disconnect_action: a };
    lemma_counters_match_run(a, rs.drop_last());
    lemma_counters_match_step(run(s0, rs.drop_last()), rs.drop_last(), rs.last());
    assert(rs.drop_last().push(rs.last()) =~= rs);
    let prev = run(s0, rs.drop_last());
    lemma_action_causes(prev, rs.last());
}

/// A device that started near is unlocked on a reading only after
/// `UNLOCK_COUNT` consecutive near readings, that reading included.
pub proof fn lemma_unlock_needs_near_run(a: Action, rs: Seq<Reading>)
    requires
        rs.len() > 0,
        rs.last() is Rpl,
        last_action(State { phase: Phase::Near { consecutive_far: 0 }, disconnect_action: a }, rs)
            == Action::Unlock,
    ensures
        ends_near(rs, UNLOCK_COUNT as int),
{
    let s0 = State { phase: Phase::Near { consecutive_far: 0 }, disconnect_action: a };
    lemma_counters_match_run(a, rs.drop_last());
    lemma_counters_match_step(run(s0, rs.drop_last()), rs.drop_last(), rs.last());
    assert(rs.drop_last().push(rs.last()) =~= rs);
    let prev = run(s0, rs.drop_last());
    lemma_action_causes(prev, rs.last());
}

/// From a near state, `LOCK_COUNT` consecutive far readings lock on the last
/// of them and not before.
pub proof fn lemma_far_run_locks(a: Action, rs: Seq<Reading>)
    requires
        rs.len() == LOCK_COUNT,
        forall|j: int| 0 <= j < rs.len() ==> #[trigger] is_far_reading(rs[j]),
    ensures
        forall|k: int|
            1 <= k < LOCK_COUNT ==> #[trigger] last_action(
                State { phase: Phase::Near { consecutive_far: 0 }, disconnect_action: a },
                rs.take(k),
            ) == Action::Nothing,
        last_action(State { phase: Phase::Near { consecutive_far: 0 }, disconnect_action: a }, rs)
            == Action::Lock,
        run(State { phase: Phase::Near { consecutive_far: 0 }, disconnect_action: a }, rs).phase
            == (Phase::Far { consecutive_near: 0 }),
{
    let s0 = State { phase: Phase::Near { consecutive_far: 0 }, disconnect_action: a };
    assert forall|k: int| 0 <= k < LOCK_COUNT implies run(s0, #[trigger] rs.take(k)).phase == (Phase::Near {
        consecutive_far: k as u32,
    }) by {
        lemma_far_prefix(a, rs, k);
    }
    assert forall|k: int|
        1 <= k < LOCK_COUNT implies #[trigger] last_action(s0, rs.take(k)) == Action::Nothing by {
        assert(rs.take(k).drop_last() =~= rs.take(k - 1));
        assert(rs.take(k).last() == rs[k - 1]);
        assert(is_far_reading(rs[k - 1]));
    }
    assert(rs.drop_last() =~= rs.take(4));
    assert(is_far_reading(rs[4]));
}

proof fn lemma_far_prefix(a: Action, rs: Seq<Reading>, k: int)
    requires
        0 <= k < LOCK_COUNT,
        rs.len() == LOCK_COUNT,
        forall|j: int| 0 <= j < rs.len() ==> #[trigger] is_far_reading(rs[j]),
    ensures
        run(State { phase: Phase::Near { consecutive_far: 0 }, disconnect_action: a }, rs.take(k)).phase
            == (Phase::Near { consecutive_far: k as u32 }),
    decreases k,
{
    if k > 0 {
        lemma_far_prefix(a, rs, k - 1);
        assert(rs.take(k).drop_last() =~= rs.take(k - 1));
        assert(rs.take(k).last() == rs[k - 1]);
        assert(is_far_reading(rs[k - 1]));
    }
}

/// From a far state, `UNLOCK_COUNT` consecutive near readings unlock on the
/// last of them and not before.
pub proof fn lemma_near_run_unlocks(a: Action, rs: Seq<Reading>)
    requires
        rs.len() == UNLOCK_COUNT,
        forall|j: int| 0 <= j < rs.len() ==> #[trigger] is_near_reading(rs[j]),
    ensures
        forall|k: int|
            1 <= k < UNLOCK_COUNT ==> #[trigger] last_action(
                State { phase: Phase::Far { consecutive_near: 0 }, disconnect_action: a },
                rs.take(k),
            ) == Action::Nothing,
        last_action(State { phase: Phase::Far { consecutive_near: 0 }, disconnect_action: a }, rs)
            == Action::Unlock,
        run(State { phase: Phase::Far { consecutive_near: 0 }, disconnect_action: a }, rs).phase
            == (Phase::Near { consecutive_far: 0 }),
{
    let s0 = State { phase: Phase::Far { consecutive_near: 0 }, disconnect_action: a };
    assert forall|k: int| 0 <= k < UNLOCK_COUNT implies run(s0, #[trigger] rs.take(k)).phase == (Phase::Far {
        consecutive_near: k as u32,
    }) by {
        lemma_near_prefix(a, rs, k);
    }
    assert forall|k: int|
        1 <= k < UNLOCK_COUNT implies #[trigger] last_action(s0, rs.take(k)) == Action::Nothing by {
        assert(rs.take(k).drop_last() =~= rs.take(k - 1));
        assert(rs.take(k).last() == rs[k - 1]);
        assert(is_near_reading(rs[k - 1]));
    }
    assert(rs.drop_last() =~= rs.take(4));
    assert(is_near_reading(rs[4]));
}

proof fn lemma_near_prefix(a: Action, rs: Seq<Reading>, k: int)
    requires
        0 <= k < UNLOCK_COUNT,
        rs.len() == UNLOCK_COUNT,
        forall|j: int| 0 <= j < rs.len() ==> #[trigger] is_near_reading(rs[j]),
    ensures
        run(State { phase: Phase::Far { consecutive_near: 0 }, disconnect_action: a }, rs.take(k)).phase
            == (Phase::Far { consecutive_near: k as u32 }),
    decreases k,
{
    if k > 0 {
        lemma_near_prefix(a, rs, k - 1);
        assert(rs.take(k).drop_last() =~= rs.take(k - 1));
        assert(rs.take(k).last() == rs[k - 1]);
        assert(is_near_reading(rs[k - 1]));
    }
}

} // verus!
