//! Web UI login sessions: random tokens with an expiry, kept in a store
//! that behaves as a map from token to expiry time.
//!
//! Times are milliseconds on the daemon's monotonic clock; the caller reads
//! the clock and passes the reading in.

use vstd::prelude::*;
use rand::Rng;
use crate::string_map::StringMap;
use crate::text::hex_lower;

verus! {

/// How long a session lasts, in hours.
pub const SESSION_DURATION_HOURS: u64 = 24;

/// How long a session lasts, in milliseconds.
pub const SESSION_DURATION_MS: u64 = 86_400_000;

/// Number of random bytes in a session token.
pub const TOKEN_BYTES: usize = 32;

/// `rand::rng().fill_bytes`: fills a buffer from the thread-local random
/// generator. Nothing is promised of the bytes.
#[verifier::external_body]
fn random_token_bytes() -> (b: [u8; 32]) {
    let mut bytes = [0u8; 32];
    rand::rng().fill_bytes(&mut bytes);
    bytes
}

/// `hex::encode`: each byte becomes two lower-case hex digits, high nibble
/// first, as the crate documents.
#[verifier::external_body]
fn hex_encode(bytes: &[u8]) -> (s: String)
    ensures
        s@ == hex_lower(bytes@),
{
    hex::encode(bytes)
}

/// A session with this token is open at time `now`: it exists and expires
/// later than `now`.
pub open spec fn session_valid(sessions: Map<Seq<char>, u64>, token: Seq<char>, now: u64) -> bool {
    sessions.contains_key(token) && sessions[token] > now
}

/// Logged-in sessions: token and expiry time.
pub struct SessionStore {
    sessions: StringMap<u64>,
}

impl View for SessionStore {
    type V = Map<Seq<char>, u64>;

    closed spec fn view(&self) -> Map<Seq<char>, u64> {
        self.sessions@
    }
}

impl SessionStore {
    pub fn new() -> (s: SessionStore)
        ensures
            s@ == Map::<Seq<char>, u64>::empty(),
    {
        SessionStore { sessions: StringMap::new() }
    }

    /// The store holds a session with this token.
    pub fn contains(&self, token: &str) -> (r: bool)
        ensures
            r == self@.contains_key(token@),
    {
        self.sessions.contains(token)
    }

    /// Records a session, replacing any session with the same token.
    pub fn insert(&mut self, token: String, expiry: u64)
        ensures
            final(self)@ == old(self)@.insert(token@, expiry),
    {
        self.sessions.insert(token, expiry)
    }

    /// Ends the session with this token, if there is one.
    pub fn remove_session(&mut self, token: &str)
        ensures
            final(self)@ == old(self)@.remove(token@),
    {
        self.sessions.remove(token)
    }

    /// A session is valid while its expiry is later than `now`; an expired
    /// session is removed when it is looked up.
    pub fn validate_session(&mut self, token: &str, now: u64) -> (valid: bool)
        ensures
            valid == session_valid(old(self)@, token@, now),
            final(self)@ == if old(self)@.contains_key(token@) && old(self)@[token@] <= now {
                old(self)@.remove(token@)
            } else {
                old(self)@
            },
    {
        match self.sessions.get(token) {
            Some(expiry) => {
                if *expiry > now {
                    true
                } else {
                    self.remove_session(token);
                    false
                }
            },
            None => false,
        }
    }

    /// Starts a session: a token of 32 random bytes in lower-case hex, which
    /// expires `SESSION_DURATION_MS` after `now`.
    pub fn create_session(&mut self, now: u64) -> (token: String)
        requires
            now + SESSION_DURATION_MS <= u64::MAX,
        ensures
            exists|b: Seq<u8>| b.len() == TOKEN_BYTES && token@ == hex_lower(b),
            token@.len() == 2 * TOKEN_BYTES,
            final(self)@ == old(self)@.insert(token@, (now + SESSION_DURATION_MS) as u64),
    {
        let bytes = random_token_bytes();
        let token = hex_encode(bytes.as_slice());
        let ghost b = bytes@;
        let t = token.clone();
        self.insert(t, now + SESSION_DURATION_MS);
        assert(token@ == hex_lower(b));
        token
    }
}

/// A session that was just created at `now` is valid at every later time
/// before `now + SESSION_DURATION_MS`, and at none from then on.
pub proof fn lemma_created_session_lasts(
    sessions: Map<Seq<char>, u64>,
    token: Seq<char>,
    now: u64,
    later: u64,
)
    requires
        now + SESSION_DURATION_MS <= u64::MAX,
        now <= later,
    ensures
        session_valid(sessions.insert(token, (now + SESSION_DURATION_MS) as u64), token, later)
            <==> later < now + SESSION_DURATION_MS,
{
}

/// After a logout, the token no longer opens a session.
pub proof fn lemma_removed_session_invalid(sessions: Map<Seq<char>, u64>, token: Seq<char>, now: u64)
    ensures
        !session_valid(sessions.remove(token), token, now),
{
}

/// A failed validation leaves no session under the token, so every later
/// validation of it fails as well.
pub proof fn lemma_failed_validation_forgets(sessions: Map<Seq<char>, u64>, token: Seq<char>, now: u64)
    requires
        !session_valid(sessions, token, now),
    ensures
        !(if sessions.contains_key(token) && sessions[token] <= now {
            sessions.remove(token)
        } else {
            sessions
        }).contains_key(token),
{
}

} // verus!
