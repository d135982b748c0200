use haraltr::proximity::{Action, Phase, Reading, State, LOCK_COUNT, RPL_THRESHOLD, UNLOCK_COUNT};

fn rpl(x: f64) -> Reading {
    Reading::Rpl(x.to_bits())
}

fn far_rpl() -> Reading {
    rpl(f64::from_bits(RPL_THRESHOLD) + 1.0)
}

fn near_rpl() -> Reading {
    rpl(f64::from_bits(RPL_THRESHOLD) - 1.0)
}

fn new_lock_on_disconnect() -> State {
    State::new(Action::Lock)
}

#[test]
fn stays_near_on_near_readings() {
    let mut s = new_lock_on_disconnect();
    for _ in 0..10 {
        assert_eq!(s.transition(near_rpl()), Action::Nothing);
    }
    assert!(matches!(s.phase, Phase::Near { consecutive_far: 0 }));
}

#[test]
fn locks_after_consecutive_far_readings() {
    let mut s = new_lock_on_disconnect();
    for _ in 0..LOCK_COUNT - 1 {
        assert_eq!(s.transition(far_rpl()), Action::Nothing);
    }
    assert_eq!(s.transition(far_rpl()), Action::Lock);
    assert!(matches!(s.phase, Phase::Far { .. }));
}

#[test]
fn far_counter_resets_on_near_reading() {
    let mut s = new_lock_on_disconnect();
    for _ in 0..LOCK_COUNT - 1 {
        s.transition(far_rpl());
    }
    s.transition(near_rpl());
    for _ in 0..LOCK_COUNT - 1 {
        assert_eq!(s.transition(far_rpl()), Action::Nothing);
    }
    assert_eq!(s.transition(far_rpl()), Action::Lock);
}

#[test]
fn unlocks_after_consecutive_near_readings() {
    let mut s = State { phase: Phase::Far { consecutive_near: 0 }, disconnect_action: Action::Lock };
    for _ in 0..UNLOCK_COUNT - 1 {
        assert_eq!(s.transition(near_rpl()), Action::Nothing);
    }
    assert_eq!(s.transition(near_rpl()), Action::Unlock);
    assert!(matches!(s.phase, Phase::Near { .. }));
}

#[test]
fn connection_lost_from_near_locks() {
    let mut s = State { phase: Phase::Near { consecutive_far: 0 }, disconnect_action: Action::Lock };
    assert_eq!(s.transition(Reading::ConnectionLost), Action::Lock);
    assert!(s.is_disconnected());
}

#[test]
fn connection_lost_from_far_no_duplicate_action() {
    let mut s = State { phase: Phase::Far { consecutive_near: 0 }, disconnect_action: Action::Lock };
    assert_eq!(s.transition(Reading::ConnectionLost), Action::Lock);
    assert_eq!(s.transition(Reading::ConnectionLost), Action::Nothing);
}

#[test]
fn connection_lost_nothing_action() {
    let mut s = State::new(Action::Nothing);
    assert_eq!(s.transition(Reading::ConnectionLost), Action::Nothing);
    assert!(s.is_disconnected());
}

#[test]
fn connection_lost_unlock_action() {
    let mut s = State::new(Action::Unlock);
    assert_eq!(s.transition(Reading::ConnectionLost), Action::Unlock);
    assert!(s.is_disconnected());
}

#[test]
fn reconnect_does_not_immediately_unlock() {
    let mut s = State { phase: Phase::Disconnected, disconnect_action: Action::Lock };
    assert_eq!(s.transition(rpl(5.0)), Action::Nothing);
    assert!(matches!(s.phase, Phase::Far { consecutive_near: 1 }));
}

#[test]
fn reconnect_far_stays_far() {
    let mut s = State { phase: Phase::Disconnected, disconnect_action: Action::Lock };
    assert_eq!(s.transition(rpl(20.0)), Action::Nothing);
    assert!(matches!(s.phase, Phase::Far { consecutive_near: 0 }));
}

#[test]
fn threshold_itself_counts_as_far() {
    let mut s = new_lock_on_disconnect();
    assert_eq!(s.transition(Reading::Rpl(RPL_THRESHOLD)), Action::Nothing);
    assert!(matches!(s.phase, Phase::Near { consecutive_far: 1 }));
    assert_eq!(f64::from_bits(RPL_THRESHOLD), 15.0);
}

#[test]
fn negative_and_nan_readings_are_near() {
    let mut s = State { phase: Phase::Near { consecutive_far: 3 }, disconnect_action: Action::Lock };
    assert_eq!(s.transition(rpl(-40.0)), Action::Nothing);
    assert!(matches!(s.phase, Phase::Near { consecutive_far: 0 }));
    s.transition(far_rpl());
    assert_eq!(s.transition(rpl(f64::NAN)), Action::Nothing);
    assert!(matches!(s.phase, Phase::Near { consecutive_far: 0 }));
    assert_eq!(s.transition(rpl(f64::INFINITY)), Action::Nothing);
    assert!(matches!(s.phase, Phase::Near { consecutive_far: 1 }));
}

#[test]
fn one_contrary_reading_does_not_flip_a_far_device() {
    let mut s = State { phase: Phase::Far { consecutive_near: 0 }, disconnect_action: Action::Lock };
    for _ in 0..UNLOCK_COUNT - 1 {
        s.transition(near_rpl());
    }
    assert_eq!(s.transition(far_rpl()), Action::Nothing);
    assert!(matches!(s.phase, Phase::Far { consecutive_near: 0 }));
}

#[test]
fn lost_connection_while_disconnected_repeats_nothing() {
    let mut s = State::new(Action::Lock);
    assert_eq!(s.transition(Reading::ConnectionLost), Action::Lock);
    for _ in 0..3 {
        assert_eq!(s.transition(Reading::ConnectionLost), Action::Nothing);
    }
    assert!(s.is_disconnected());
}
