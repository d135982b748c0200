//! The query protocol spoken between the PAM module and the daemon over a
//! Unix socket: a fixed-size query and a fixed-size little-endian response.

use vstd::prelude::*;
use vstd::bytes::*;
use vstd::slice::slice_subrange;

verus! {

/// Path of the daemon's query socket.
pub const IPC_SOCKET_PATH: &'static str = "/run/haraltr/query.sock";

/// Length of a query: one kind byte and a little-endian `u32` user id.
pub const QUERY_SIZE: usize = 5;

/// Length of an encoded [`QueryResponse`].
pub const RESPONSE_SIZE: usize = 13;

/// What the PAM module asks the daemon.
#[derive(Debug, Clone, Copy, PartialEq, Eq, Structural)]
pub enum QueryKind {
    IsDeviceNear,
}

impl QueryKind {
    /// The byte that stands for this kind on the wire.
    pub open spec fn spec_byte(self) -> u8 {
        match self {
            QueryKind::IsDeviceNear => 0x01,
        }
    }

    pub fn to_byte(self) -> (b: u8)
        ensures
            b == self.spec_byte(),
    {
        match self {
            QueryKind::IsDeviceNear => 0x01,
        }
    }
}

/// The daemon's answer about a user's devices.
#[derive(Debug, Clone, Copy, PartialEq, Eq, Structural)]
pub enum ProximityStatus {
    Near,
    Far,
    Disconnected,
    Unknown,
}

impl ProximityStatus {
    /// The byte that stands for this status on the wire.
    pub open spec fn spec_byte(self) -> u8 {
        match self {
            ProximityStatus::Near => 0x01,
            ProximityStatus::Far => 0x02,
            ProximityStatus::Disconnected => 0x03,
            ProximityStatus::Unknown => 0xFF,
        }
    }

    pub fn to_byte(self) -> (b: u8)
        ensures
            b == self.spec_byte(),
    {
        match self {
            ProximityStatus::Near => 0x01,
            ProximityStatus::Far => 0x02,
            ProximityStatus::Disconnected => 0x03,
            ProximityStatus::Unknown => 0xFF,
        }
    }

    /// The status that a byte stands for, if any.
    pub fn from_byte(b: u8) -> (s: Option<ProximityStatus>)
        ensures
            match s {
                Some(st) => st.spec_byte() == b,
                None => forall|st: ProximityStatus| st.spec_byte() != b,
            },
    {
        if b == 0x01 {
            Some(ProximityStatus::Near)
        } else if b == 0x02 {
            Some(ProximityStatus::Far)
        } else if b == 0x03 {
            Some(ProximityStatus::Disconnected)
        } else if b == 0xFF {
            Some(ProximityStatus::Unknown)
        } else {
            None
        }
    }

    pub fn is_near(self) -> (r: bool)
        ensures
            r <==> self == ProximityStatus::Near,
    {
        match self {
            ProximityStatus::Near => true,
            _ => false,
        }
    }
}

/// The daemon's reply to a query.
#[derive(Debug, Clone, Copy, PartialEq, Eq, Structural)]
pub struct QueryResponse {
    /// A [`ProximityStatus`] byte.
    pub status: u8,
    /// The bit pattern of the `f32` relative path loss.
    pub rpl: u32,
    /// Seconds since the Unix epoch when the answer was made.
    pub timestamp_secs: u64,
}

/// The wire form of a response: the status byte, then the path loss bits and
/// the timestamp, both little-endian.
pub open spec fn response_bytes(r: QueryResponse) -> Seq<u8> {
    seq![r.status] + spec_u32_to_le_bytes(r.rpl) + spec_u64_to_le_bytes(r.timestamp_secs)
}

/// The response that a 13-byte wire form stands for.
pub open spec fn response_from_bytes(b: Seq<u8>) -> QueryResponse {
    QueryResponse {
        status: b[0],
        rpl: spec_u32_from_le_bytes(b.subrange(1, 5)),
        timestamp_secs: spec_u64_from_le_bytes(b.subrange(5, 13)),
    }
}

impl QueryResponse {
    /// Encodes the response in its wire form.
    pub fn as_bytes(&self) -> (out: Vec<u8>)
        ensures
            out@ == response_bytes(*self),
            out@.len() == RESPONSE_SIZE,
    {
        proof {
            lemma_auto_spec_u32_to_from_le_bytes();
            lemma_auto_spec_u64_to_from_le_bytes();
        }
        let mut out: Vec<u8> = Vec::new();
        out.push(self.status);
        let mut rpl = u32_to_le_bytes(self.rpl);
        let mut ts = u64_to_le_bytes(self.timestamp_secs);
        out.append(&mut rpl);
        out.append(&mut ts);
        out
    }

    /// Decodes a response from its wire form.
    pub fn from_bytes(bytes: &[u8; RESPONSE_SIZE]) -> (r: QueryResponse)
        ensures
            r == response_from_bytes(bytes@),
    {
        let s: &[u8] = bytes.as_slice();
        let status = s[0];
        let rpl = u32_from_le_bytes(slice_subrange(s, 1, 5));
        let timestamp_secs = u64_from_le_bytes(slice_subrange(s, 5, 13));
        QueryResponse { status, rpl, timestamp_secs }
    }
}

/// The user id that a query asks about, for a query of a known kind.
pub open spec fn spec_parse_query(q: Seq<u8>) -> Option<u32> {
    if q[0] == QueryKind::IsDeviceNear.spec_byte() {
        Some(spec_u32_from_le_bytes(q.subrange(1, 5)))
    } else {
        None
    }
}

/// The query that asks whether a user's device is near.
pub open spec fn spec_encode_query(uid: u32) -> Seq<u8> {
    seq![QueryKind::IsDeviceNear.spec_byte()] + spec_u32_to_le_bytes(uid)
}

/// Reads a query: the user id for a query of a known kind.
pub fn parse_query(query: &[u8; QUERY_SIZE]) -> (r: Option<u32>)
    ensures
        r == spec_parse_query(query@),
{
    let s: &[u8] = query.as_slice();
    if s[0] != QueryKind::IsDeviceNear.to_byte() {
        return None;
    }
    Some(u32_from_le_bytes(slice_subrange(s, 1, 5)))
}

/// Writes the query that asks whether a user's device is near.
pub fn encode_query(uid: u32) -> (q: [u8; QUERY_SIZE])
    ensures
        q@ == spec_encode_query(uid),
{
    proof {
        lemma_auto_spec_u32_to_from_le_bytes();
    }
    let b = u32_to_le_bytes(uid);
    let q = [QueryKind::IsDeviceNear.to_byte(), b[0], b[1], b[2], b[3]];
    assert(q@ =~= spec_encode_query(uid));
    q
}

/// A query written for a user reads back as that user's query.
pub proof fn lemma_query_round_trip(uid: u32)
    ensures
        spec_encode_query(uid).len() == QUERY_SIZE,
        spec_parse_query(spec_encode_query(uid)) == Some(uid),
{
    lemma_auto_spec_u32_to_from_le_bytes();
    assert(spec_encode_query(uid).subrange(1, 5) =~= spec_u32_to_le_bytes(uid));
}

/// Decoding an encoded response gives the response back.
pub proof fn lemma_response_round_trip(r: QueryResponse)
    ensures
        response_bytes(r).len() == RESPONSE_SIZE,
        response_from_bytes(response_bytes(r)) == r,
{
    lemma_auto_spec_u32_to_from_le_bytes();
    lemma_auto_spec_u64_to_from_le_bytes();
    let b = response_bytes(r);
    assert(b.subrange(1, 5) =~= spec_u32_to_le_bytes(r.rpl));
    assert(b.subrange(5, 13) =~= spec_u64_to_le_bytes(r.timestamp_secs));
}

/// Every 13-byte wire form is the encoding of the response it decodes to.
pub proof fn lemma_bytes_round_trip(b: Seq<u8>)
    requires
        b.len() == RESPONSE_SIZE,
    ensures
        response_bytes(response_from_bytes(b)) == b,
{
    lemma_auto_spec_u32_to_from_le_bytes();
    lemma_auto_spec_u64_to_from_le_bytes();
    let r = response_from_bytes(b);
    assert(spec_u32_to_le_bytes(spec_u32_from_le_bytes(b.subrange(1, 5))) == b.subrange(1, 5));
    assert(spec_u64_to_le_bytes(spec_u64_from_le_bytes(b.subrange(5, 13))) == b.subrange(5, 13));
    assert(response_bytes(r) =~= b);
}

} // verus!
