use haraltr::pam::{judge_attempt, PamVerdict, MAX_RETRIES};
use haraltr::protocol::{
    encode_query, parse_query, ProximityStatus, QueryKind, QueryResponse, QUERY_SIZE, RESPONSE_SIZE,
};

#[test]
fn round_trip() {
    let sent = QueryResponse {
        status: ProximityStatus::Near.to_byte(),
        rpl: 12.5f32.to_bits(),
        timestamp_secs: 1234567890,
    };

    let bytes: [u8; RESPONSE_SIZE] = sent.as_bytes().as_slice().try_into().unwrap();
    let restored = QueryResponse::from_bytes(&bytes);

    assert_eq!(sent.status, restored.status);
    assert_eq!(f32::from_bits(sent.rpl), f32::from_bits(restored.rpl));
    assert_eq!(sent.timestamp_secs, restored.timestamp_secs);
}

#[test]
fn status_values() {
    assert_eq!(ProximityStatus::Near.to_byte(), 0x01);
    assert_eq!(ProximityStatus::Far.to_byte(), 0x02);
    assert_eq!(ProximityStatus::Disconnected.to_byte(), 0x03);
    assert_eq!(ProximityStatus::Unknown.to_byte(), 0xFF);
}

#[test]
fn query_kind_value() {
    assert_eq!(QueryKind::IsDeviceNear.to_byte(), 0x01);
}

#[test]
fn is_near() {
    assert!(ProximityStatus::Near.is_near());
    assert!(!ProximityStatus::Far.is_near());
    assert!(!ProximityStatus::Disconnected.is_near());
    assert!(!ProximityStatus::Unknown.is_near());
}

#[test]
fn response_wire_layout_is_packed_little_endian() {
    let r = QueryResponse { status: 0x02, rpl: 0x4148_0000, timestamp_secs: 0x0102_0304_0506_0708 };
    let b = r.as_bytes();
    assert_eq!(b.len(), RESPONSE_SIZE);
    assert_eq!(
        b,
        vec![0x02, 0x00, 0x00, 0x48, 0x41, 0x08, 0x07, 0x06, 0x05, 0x04, 0x03, 0x02, 0x01]
    );
}

#[test]
fn status_from_byte_round_trip_and_unknown_bytes() {
    for s in [ProximityStatus::Near, ProximityStatus::Far, ProximityStatus::Disconnected, ProximityStatus::Unknown] {
        assert_eq!(ProximityStatus::from_byte(s.to_byte()), Some(s));
    }
    assert_eq!(ProximityStatus::from_byte(0x00), None);
    assert_eq!(ProximityStatus::from_byte(0x04), None);
}

#[test]
fn query_encodes_kind_and_uid_and_parses_back() {
    let q = encode_query(1000);
    assert_eq!(q.len(), QUERY_SIZE);
    assert_eq!(q, [0x01, 0xE8, 0x03, 0x00, 0x00]);
    assert_eq!(parse_query(&q), Some(1000));
    assert_eq!(parse_query(&encode_query(u32::MAX)), Some(u32::MAX));
}

#[test]
fn query_of_unknown_kind_is_refused() {
    assert_eq!(parse_query(&[0x02, 0xE8, 0x03, 0x00, 0x00]), None);
    assert_eq!(parse_query(&[0x00, 0, 0, 0, 0]), None);
}

#[test]
fn pam_grants_on_near_retries_then_denies() {
    let near = QueryResponse { status: ProximityStatus::Near.to_byte(), rpl: 0, timestamp_secs: 0 };
    let far = QueryResponse { status: ProximityStatus::Far.to_byte(), rpl: 0, timestamp_secs: 0 };
    assert_eq!(judge_attempt(0, Some(near)), PamVerdict::Granted);
    assert_eq!(judge_attempt(0, Some(far)), PamVerdict::RetryAfterDelay);
    assert_eq!(judge_attempt(1, Some(far)), PamVerdict::RetryAfterDelay);
    assert_eq!(judge_attempt(MAX_RETRIES - 1, Some(far)), PamVerdict::Denied);
    assert_eq!(judge_attempt(MAX_RETRIES - 1, Some(near)), PamVerdict::Granted);
    assert_eq!(judge_attempt(1, None), PamVerdict::QueryFailed);
}
