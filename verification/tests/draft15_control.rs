use moqtap_codec::draft15::message::{
    ControlMessage, Fetch, FetchPayload, FetchType, GoAway, MaxRequestId, PublishDone,
    RequestError, Subscribe, SubscribeOk,
};
use moqtap_codec::error::CodecError;
use moqtap_codec::kvp::{KeyValuePair, KvpValue};
use moqtap_codec::types::TrackNamespace;
use moqtap_codec::varint::VarInt;

fn vi(v: u64) -> VarInt {
    VarInt::from_u64(v).unwrap()
}

fn int_pair(key: u64, value: u64) -> KeyValuePair {
    KeyValuePair { key: vi(key), value: KvpValue::Varint(vi(value)) }
}

fn round_trip(m: &ControlMessage) -> Vec<u8> {
    let mut buf = Vec::new();
    m.encode(&mut buf).unwrap();
    let (back, n) = ControlMessage::decode(&buf).unwrap();
    assert_eq!(&back, m);
    assert_eq!(n, buf.len());
    buf
}

#[test]
fn d15_max_request_id_wire_bytes() {
    let m = ControlMessage::MaxRequestId(MaxRequestId { request_id: vi(5) });
    assert_eq!(round_trip(&m), vec![0x15, 0x00, 0x01, 0x05]);
}

#[test]
fn d15_subscribe_round_trips() {
    let m = ControlMessage::Subscribe(Subscribe {
        request_id: vi(1),
        track_namespace: TrackNamespace(vec![b"a".to_vec(), b"bc".to_vec()]),
        track_name: b"video".to_vec(),
        parameters: vec![int_pair(0x02, 100), int_pair(0x20, 7)],
    });
    let bytes = round_trip(&m);
    assert_eq!(bytes[0], 0x03);
    assert_eq!(((bytes[1] as usize) << 8) | bytes[2] as usize, bytes.len() - 3);
}

#[test]
fn d15_responses_round_trip() {
    round_trip(&ControlMessage::SubscribeOk(SubscribeOk {
        request_id: vi(2),
        track_alias: vi(9),
        parameters: vec![int_pair(0x08, 3)],
    }));
    round_trip(&ControlMessage::RequestError(RequestError {
        request_id: vi(3),
        error_code: vi(4),
        reason_phrase: b"nope".to_vec(),
    }));
    round_trip(&ControlMessage::PublishDone(PublishDone {
        request_id: vi(3),
        status_code: vi(0),
        stream_count: vi(12),
        reason_phrase: Vec::new(),
    }));
}

#[test]
fn d15_fetch_round_trips_and_checks_its_range() {
    let m = ControlMessage::Fetch(Fetch {
        request_id: vi(4),
        fetch_type: FetchType::Standalone,
        fetch_payload: FetchPayload::Standalone {
            track_namespace: TrackNamespace(vec![b"ns".to_vec()]),
            track_name: b"t".to_vec(),
            start_group: vi(3),
            start_object: vi(0),
            end_group: vi(5),
            end_object: vi(0),
        },
        parameters: Vec::new(),
    });
    round_trip(&m);
    let backwards = ControlMessage::Fetch(Fetch {
        request_id: vi(4),
        fetch_type: FetchType::Standalone,
        fetch_payload: FetchPayload::Standalone {
            track_namespace: TrackNamespace(vec![b"ns".to_vec()]),
            track_name: b"t".to_vec(),
            start_group: vi(5),
            start_object: vi(0),
            end_group: vi(3),
            end_object: vi(0),
        },
        parameters: Vec::new(),
    });
    let mut buf = vec![0xaa];
    assert_eq!(backwards.encode(&mut buf), Err(CodecError::InvalidField));
    assert_eq!(buf, vec![0xaa]);
    round_trip(&ControlMessage::Fetch(Fetch {
        request_id: vi(6),
        fetch_type: FetchType::AbsoluteJoining,
        fetch_payload: FetchPayload::Joining { joining_request_id: vi(1), joining_start: vi(2) },
        parameters: Vec::new(),
    }));
}

#[test]
fn d15_caps_and_mismatches_are_refused() {
    let long = ControlMessage::RequestError(RequestError {
        request_id: vi(1),
        error_code: vi(2),
        reason_phrase: vec![b'x'; 1025],
    });
    let mut buf = Vec::new();
    assert_eq!(long.encode(&mut buf), Err(CodecError::ReasonPhraseTooLong));
    assert!(buf.is_empty());
    let uri = ControlMessage::GoAway(GoAway { new_session_uri: vec![b'u'; 8193] });
    assert_eq!(uri.encode(&mut buf), Err(CodecError::GoAwayUriTooLong));
    assert_eq!(ControlMessage::decode(&[0x3f, 0x00, 0x00]), Err(CodecError::UnknownMessageType(0x3f)));
    assert_eq!(
        ControlMessage::decode(&[0x15, 0x00, 0x02, 0x05, 0x00]),
        Err(CodecError::ControlMessageLengthMismatch { declared: 2, detail: "its fields left bytes unread" })
    );
    assert_eq!(ControlMessage::decode(&[0x15, 0x00, 0x02, 0x05]), Err(CodecError::UnexpectedEnd));
}
