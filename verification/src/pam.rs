//! The PAM module's decision: it queries the daemon a few times and lets
//! the user in only when the daemon says a device of theirs is near.

use vstd::prelude::*;
use crate::protocol::{ProximityStatus, QueryResponse};

verus! {

/// Queries made before giving up.
pub const MAX_RETRIES: u32 = 3;

/// What the module does after one query.
#[derive(Debug, Clone, Copy, PartialEq, Eq, Structural)]
pub enum PamVerdict {
    /// A device is near: authentication succeeds.
    Granted,
    /// Not near yet: wait and ask again.
    RetryAfterDelay,
    /// Not near after the last attempt: authentication fails.
    Denied,
    /// The daemon could not be asked: fail with the query's error.
    QueryFailed,
}

/// The response says a device is near.
pub open spec fn response_grants(r: QueryResponse) -> bool {
    r.status == ProximityStatus::Near.spec_byte()
}

/// The verdict after attempt `attempt` (counted from 0) got `response`
/// (`None` when the query itself failed).
pub open spec fn spec_judge_attempt(attempt: u32, response: Option<QueryResponse>) -> PamVerdict {
    match response {
        None => PamVerdict::QueryFailed,
        Some(r) => if response_grants(r) {
            PamVerdict::Granted
        } else if attempt + 1 < MAX_RETRIES {
            PamVerdict::RetryAfterDelay
        } else {
            PamVerdict::Denied
        },
    }
}

pub fn judge_attempt(attempt: u32, response: Option<QueryResponse>) -> (v: PamVerdict)
    requires
        attempt < MAX_RETRIES,
    ensures
        v == spec_judge_attempt(attempt, response),
{
    match response {
        None => PamVerdict::QueryFailed,
        Some(r) => {
            if r.status == ProximityStatus::Near.to_byte() {
                PamVerdict::Granted
            } else if attempt + 1 < MAX_RETRIES {
                PamVerdict::RetryAfterDelay
            } else {
                PamVerdict::Denied
            }
        },
    }
}

/// The outcome of a whole authentication given the responses of the
/// queries in turn: the first verdict that is not a retry.
pub open spec fn pam_outcome(responses: Seq<Option<QueryResponse>>, attempt: u32) -> PamVerdict
    decreases MAX_RETRIES - attempt,
{
    if attempt >= MAX_RETRIES || attempt >= responses.len() {
        PamVerdict::Denied
    } else {
        let v = spec_judge_attempt(attempt, responses[attempt as int]);
        if v == PamVerdict::RetryAfterDelay {
            pam_outcome(responses, (attempt + 1) as u32)
        } else {
            v
        }
    }
}

/// Answer `k` says near.
pub open spec fn grants_at(responses: Seq<Option<QueryResponse>>, k: int) -> bool {
    responses[k] matches Some(r) && response_grants(r)
}

/// Some answer from attempt `from` on, among the first `MAX_RETRIES`, says
/// near, and every query before it got an answer.
pub open spec fn granted_from(responses: Seq<Option<QueryResponse>>, from: int) -> bool {
    exists|k: int|
        from <= k < MAX_RETRIES && k < responses.len() && #[trigger] grants_at(responses, k) && forall|j: int|
            from <= j < k ==> (#[trigger] responses[j]) is Some
}

/// Authentication succeeds exactly when one of the first `MAX_RETRIES`
/// answers says near and no query before it failed.
pub proof fn lemma_granted_only_when_near(responses: Seq<Option<QueryResponse>>, attempt: u32)
    requires
        attempt <= MAX_RETRIES,
    ensures
        pam_outcome(responses, attempt) == PamVerdict::Granted <==> granted_from(responses, attempt as int),
    decreases MAX_RETRIES - attempt,
{
    if attempt < MAX_RETRIES && attempt < responses.len() {
        lemma_granted_only_when_near(responses, (attempt + 1) as u32);
        let v = spec_judge_attempt(attempt, responses[attempt as int]);
        if granted_from(responses, attempt + 1) && v == PamVerdict::RetryAfterDelay {
            let k = choose|k: int|
                attempt + 1 <= k < MAX_RETRIES && k < responses.len() && #[trigger] grants_at(responses, k)
                    && forall|j: int| attempt + 1 <= j < k ==> (#[trigger] responses[j]) is Some;
            assert forall|j: int| attempt <= j < k implies (#[trigger] responses[j]) is Some by {
                if j == attempt {
                }
            }
            assert(grants_at(responses, k));
        }
        if v == PamVerdict::Granted {
            assert(grants_at(responses, attempt as int));
        }
        if granted_from(responses, attempt as int) {
            let k = choose|k: int|
                attempt <= k < MAX_RETRIES && k < responses.len() && #[trigger] grants_at(responses, k)
                    && forall|j: int| attempt <= j < k ==> (#[trigger] responses[j]) is Some;
            if k > attempt {
                assert(responses[attempt as int] is Some);
                assert(grants_at(responses, k));
            }
        }
    }
}

} // verus!
