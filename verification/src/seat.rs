//! The login session that the daemon acts on: the first active session on
//! `seat0`, found by asking logind about each session in turn.
//!
//! Asking is I/O, so the search is a state machine: [`SeatSearch::start`]
//! and [`SeatSearch::on_reply`] say which session to ask about next, or what
//! the search found, and the caller performs each query.

use vstd::prelude::*;
use crate::text::str_eq;

verus! {

/// The uid that stands for "no active session".
pub const NO_ACTIVE_UID: u32 = 0xFFFF_FFFF;

/// A session as logind lists it.
#[derive(Debug, Clone)]
pub struct SessionEntry {
    pub seat: String,
    pub uid: u32,
}

pub open spec fn seat0() -> Seq<char> {
    seq!['s', 'e', 'a', 't', '0']
}

pub open spec fn on_seat0(s: SessionEntry) -> bool {
    s.seat@ == seat0()
}

/// What to do next in a search.
#[derive(Debug, Clone, Copy, PartialEq, Eq, Structural)]
pub enum SearchStep {
    /// Ask whether the session at this position is active.
    Ask(usize),
    /// The search found an active session of this user.
    Found(u32),
    /// No session on `seat0` is active.
    NoActive,
}

/// The first position at or after `from` of a session on `seat0`.
pub open spec fn next_seat0_from(sessions: Seq<SessionEntry>, from: int) -> Option<int> {
    if exists|i: int| from <= i < sessions.len() && #[trigger] on_seat0(sessions[i]) {
        Some(choose|i: int|
            from <= i < sessions.len() && on_seat0(sessions[i]) && forall|m: int|
                from <= m < i ==> !#[trigger] on_seat0(sessions[m]))
    } else {
        None
    }
}

/// The step that asks about the session found from `from`, or ends.
pub open spec fn ask_from(sessions: Seq<SessionEntry>, from: int) -> SearchStep {
    match next_seat0_from(sessions, from) {
        Some(i) => SearchStep::Ask(i as usize),
        None => SearchStep::NoActive,
    }
}

fn next_seat0(sessions: &Vec<SessionEntry>, from: usize) -> (r: SearchStep)
    requires
        from <= sessions.len(),
    ensures
        r == ask_from(sessions@, from as int),
        r matches SearchStep::Ask(i) ==> from <= i < sessions.len() && on_seat0(sessions@[i as int]),
{
    let mut i = from;
    proof {
        reveal_strlit("seat0");
        assert("seat0"@ =~= seat0());
    }
    while i < sessions.len()
        invariant
            from <= i <= sessions.len(),
            "seat0"@ == seat0(),
            forall|m: int| from <= m < i ==> !#[trigger] on_seat0(sessions@[m]),
        decreases sessions.len() - i,
    {
        if str_eq(sessions[i].seat.as_str(), "seat0") {
            proof {
                let ii = i as int;
                let c = choose|k: int|
                    from <= k < sessions@.len() && on_seat0(sessions@[k]) && forall|m: int|
                        from <= m < k ==> !#[trigger] on_seat0(sessions@[m]);
                assert(from <= ii < sessions@.len() && on_seat0(sessions@[ii]) && forall|m: int|
                    from <= m < ii ==> !#[trigger] on_seat0(sessions@[m]));
                if c < ii {
                    assert(!on_seat0(sessions@[c]));
                } else if c > ii {
                    assert(!on_seat0(sessions@[ii]));
                }
            }
            return SearchStep::Ask(i);
        }
        i += 1;
    }
    SearchStep::NoActive
}

/// A search over the sessions that logind listed.
pub struct SeatSearch;

impl SeatSearch {
    /// The first step: ask about the first session on `seat0`.
    pub fn start(sessions: &Vec<SessionEntry>) -> (r: SearchStep)
        ensures
            r == ask_from(sessions@, 0),
            r matches SearchStep::Ask(i) ==> i < sessions.len() && on_seat0(sessions@[i as int]),
    {
        next_seat0(sessions, 0)
    }

    /// The step after the session at `asked` answered whether it is active:
    /// an active session ends the search with its uid; otherwise the search
    /// goes on with the next session on `seat0`.
    pub fn on_reply(sessions: &Vec<SessionEntry>, asked: usize, active: bool) -> (r: SearchStep)
        requires
            asked < sessions.len(),
        ensures
            active ==> r == SearchStep::Found(sessions@[asked as int].uid),
            !active ==> r == ask_from(sessions@, asked + 1),
            r matches SearchStep::Ask(i) ==> asked < i < sessions.len() && on_seat0(sessions@[i as int]),
    {
        if active {
            SearchStep::Found(sessions[asked].uid)
        } else {
            next_seat0(sessions, asked + 1)
        }
    }
}

/// The outcome of a whole search from position `from`, given which sessions
/// are active: the uid of the first active session on `seat0` at or after
/// `from`, or no active session.
pub open spec fn first_active_from(sessions: Seq<SessionEntry>, active: Seq<bool>, from: int) -> SearchStep
    decreases sessions.len() - from,
{
    if from < 0 || from >= sessions.len() {
        SearchStep::NoActive
    } else if on_seat0(sessions[from]) && active[from] {
        SearchStep::Found(sessions[from].uid)
    } else {
        first_active_from(sessions, active, from + 1)
    }
}

/// Where a step leads once every session asked about answers as `active`
/// says: a step that asks about session `i` ends as the search from `i`
/// after the reply; an ended search stays as it is.
pub open spec fn settles_to(sessions: Seq<SessionEntry>, active: Seq<bool>, step: SearchStep) -> SearchStep {
    match step {
        SearchStep::Ask(i) => if active[i as int] {
            SearchStep::Found(sessions[i as int].uid)
        } else {
            first_active_from(sessions, active, i + 1)
        },
        _ => step,
    }
}

proof fn lemma_skip_inactive_seats(sessions: Seq<SessionEntry>, active: Seq<bool>, from: int, to: int)
    requires
        0 <= from <= to <= sessions.len(),
        forall|m: int| from <= m < to ==> !#[trigger] on_seat0(sessions[m]),
    ensures
        first_active_from(sessions, active, from) == first_active_from(sessions, active, to),
    decreases to - from,
{
    if from < to {
        lemma_skip_inactive_seats(sessions, active, from + 1, to);
    }
}

/// Asking from any position, and then replying as the sessions really are,
/// ends the search with the first active session on `seat0` from there: so
/// [`SeatSearch::start`] followed by [`SeatSearch::on_reply`] for each
/// session asked about finds the first active session on `seat0`, or none.
pub proof fn lemma_search_finds_first_active(sessions: Seq<SessionEntry>, active: Seq<bool>, from: int)
    requires
        0 <= from <= sessions.len(),
        sessions.len() <= usize::MAX,
    ensures
        settles_to(sessions, active, ask_from(sessions, from)) == first_active_from(sessions, active, from),
{
    match next_seat0_from(sessions, from) {
        Some(i) => {
            let w = choose|k: int| from <= k < sessions.len() && #[trigger] on_seat0(sessions[k]);
            assert(from <= w < sessions.len() && on_seat0(sessions[w]));
            lemma_first_seat0(sessions, from, w);
            assert(from <= i < sessions.len() && on_seat0(sessions[i]));
            lemma_skip_inactive_seats(sessions, active, from, i);
            assert(i as usize as int == i);
            assert(ask_from(sessions, from) == SearchStep::Ask(i as usize));
        },
        None => {
            assert forall|m: int| from <= m < sessions.len() implies !#[trigger] on_seat0(sessions[m]) by {
                if on_seat0(sessions[m]) {
                    assert(exists|k: int| from <= k < sessions.len() && #[trigger] on_seat0(sessions[k]));
                }
            }
            lemma_skip_inactive_seats(sessions, active, from, sessions.len() as int);
        },
    }
}

proof fn lemma_first_seat0(sessions: Seq<SessionEntry>, from: int, w: int)
    requires
        from <= w < sessions.len(),
        on_seat0(sessions[w]),
    ensures
        exists|i: int|
            from <= i < sessions.len() && on_seat0(sessions[i]) && forall|m: int|
                from <= m < i ==> !#[trigger] on_seat0(sessions[m]),
    decreases w - from,
{
    if exists|m: int| from <= m < w && #[trigger] on_seat0(sessions[m]) {
        let m = choose|m: int| from <= m < w && #[trigger] on_seat0(sessions[m]);
        lemma_first_seat0(sessions, from, m);
    } else {
        assert(forall|m: int| from <= m < w ==> !#[trigger] on_seat0(sessions[m]));
    }
}

/// The uid that the session watcher records after a search: the active
/// user's, or [`NO_ACTIVE_UID`] when no session is active.
pub fn watched_uid(outcome: SearchStep) -> (uid: u32)
    ensures
        outcome matches SearchStep::Found(u) ==> uid == u,
        !(outcome is Found) ==> uid == NO_ACTIVE_UID,
{
    match outcome {
        SearchStep::Found(u) => u,
        _ => NO_ACTIVE_UID,
    }
}

/// What a lock or unlock for a user does once a search has ended.
#[derive(Debug, Clone, Copy, PartialEq, Eq, Structural)]
pub enum SessionAction {
    /// The active session is that user's: lock or unlock it.
    Act,
    /// Another user is active: leave the session alone.
    OtherUser,
    /// No session is active: the request fails.
    NoSession,
}

/// A lock or unlock for `uid` goes ahead only on an active session of that
/// very user; it is skipped for another user's, and fails without one.
pub fn session_action(outcome: SearchStep, uid: u32) -> (r: SessionAction)
    requires
        !(outcome is Ask),
    ensures
        r == (match outcome {
            SearchStep::Found(u) => if u == uid { SessionAction::Act } else { SessionAction::OtherUser },
            _ => SessionAction::NoSession,
        }),
{
    match outcome {
        SearchStep::Found(u) => if u == uid {
            SessionAction::Act
        } else {
            SessionAction::OtherUser
        },
        _ => SessionAction::NoSession,
    }
}

} // verus!
