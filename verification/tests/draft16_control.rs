use moqtap_codec::draft16::message::{
    ControlMessage, Fetch, FetchPayload, FetchType, GoAway, MaxRequestId, RequestError, Subscribe,
    SubscribeOk,
};
use moqtap_codec::draft16::fields::{message_fields, message_renderable_exec};
use moqtap_codec::error::CodecError;
use moqtap_codec::fields::{EntryValue, FieldValue, Scalar};
use moqtap_codec::kvp::{KeyValuePair, KvpValue};
use moqtap_codec::types::TrackNamespace;
use moqtap_codec::varint::VarInt;

fn vi(v: u64) -> VarInt {
    VarInt::from_u64(v).unwrap()
}

fn int_pair(key: u64, value: u64) -> KeyValuePair {
    KeyValuePair { key: vi(key), value: KvpValue::Varint(vi(value)) }
}

fn round_trip(m: &ControlMessage) -> Vec<u8> {
    let mut buf = Vec::new();
    m.encode(&mut buf).unwrap();
    let (back, n) = ControlMessage::decode(&buf).unwrap();
    assert_eq!(&back, m);
    assert_eq!(n, buf.len());
    buf
}

#[test]
fn max_request_id_wire_bytes() {
    let m = ControlMessage::MaxRequestId(MaxRequestId { request_id: vi(5) });
    assert_eq!(round_trip(&m), vec![0x15, 0x00, 0x01, 0x05]);
}

#[test]
fn subscribe_round_trips() {
    let m = ControlMessage::Subscribe(Subscribe {
        request_id: vi(1),
        track_namespace: TrackNamespace(vec![b"a".to_vec(), b"bc".to_vec()]),
        track_name: b"video".to_vec(),
        parameters: vec![int_pair(0x02, 100), int_pair(0x20, 7)],
    });
    let bytes = round_trip(&m);
    // type 0x03, length, request id 1, two namespace fields, the name, two pairs
    assert_eq!(
        bytes,
        vec![
            0x03, 0x00, 0x13, 0x01, 0x02, 0x01, b'a', 0x02, b'b', b'c', 0x05, b'v', b'i', b'd', b'e',
            b'o', 0x02, 0x02, 0x40, 0x64, 0x1e, 0x07
        ]
    );
    assert_eq!(bytes[0], 0x03);
    assert_eq!(((bytes[1] as usize) << 8) | bytes[2] as usize, bytes.len() - 3);
}

#[test]
fn subscribe_ok_with_track_extensions_round_trips() {
    let m = ControlMessage::SubscribeOk(SubscribeOk {
        request_id: vi(2),
        track_alias: vi(9),
        parameters: vec![int_pair(0x08, 3)],
        track_extensions: vec![int_pair(0x02, 10), int_pair(0x30, 1)],
    });
    round_trip(&m);
}

#[test]
fn fetch_round_trips_and_checks_its_range() {
    let standalone = FetchPayload::Standalone {
        track_namespace: TrackNamespace(vec![b"ns".to_vec()]),
        track_name: b"t".to_vec(),
        start_group: vi(3),
        start_object: vi(0),
        end_group: vi(5),
        end_object: vi(0),
    };
    let m = ControlMessage::Fetch(Fetch {
        request_id: vi(4),
        fetch_type: FetchType::Standalone,
        fetch_payload: standalone,
        parameters: Vec::new(),
    });
    round_trip(&m);
    let backwards = ControlMessage::Fetch(Fetch {
        request_id: vi(4),
        fetch_type: FetchType::Standalone,
        fetch_payload: FetchPayload::Standalone {
            track_namespace: TrackNamespace(vec![b"ns".to_vec()]),
            track_name: b"t".to_vec(),
            start_group: vi(5),
            start_object: vi(0),
            end_group: vi(3),
            end_object: vi(0),
        },
        parameters: Vec::new(),
    });
    let mut buf = vec![0xaa];
    assert_eq!(backwards.encode(&mut buf), Err(CodecError::InvalidField));
    assert_eq!(buf, vec![0xaa]);
    let joining = ControlMessage::Fetch(Fetch {
        request_id: vi(4),
        fetch_type: FetchType::RelativeJoining,
        fetch_payload: FetchPayload::Joining { joining_request_id: vi(1), joining_start: vi(2) },
        parameters: Vec::new(),
    });
    round_trip(&joining);
}

#[test]
fn caps_and_mismatches_are_refused() {
    let long = ControlMessage::RequestError(RequestError {
        request_id: vi(1),
        error_code: vi(2),
        retry_interval: vi(0),
        reason_phrase: vec![b'x'; 1025],
    });
    let mut buf = Vec::new();
    assert_eq!(long.encode(&mut buf), Err(CodecError::ReasonPhraseTooLong));
    assert!(buf.is_empty());
    let uri = ControlMessage::GoAway(GoAway { new_session_uri: vec![b'u'; 8193] });
    assert_eq!(uri.encode(&mut buf), Err(CodecError::GoAwayUriTooLong));
    // An unknown type, a payload that runs short, and one with a byte left over.
    assert_eq!(ControlMessage::decode(&[0x3f, 0x00, 0x00]), Err(CodecError::UnknownMessageType(0x3f)));
    assert_eq!(
        ControlMessage::decode(&[0x15, 0x00, 0x00]),
        Err(CodecError::ControlMessageLengthMismatch { declared: 0, detail: "its fields ran past the end" })
    );
    assert_eq!(
        ControlMessage::decode(&[0x15, 0x00, 0x02, 0x05, 0x00]),
        Err(CodecError::ControlMessageLengthMismatch { declared: 2, detail: "its fields left bytes unread" })
    );
    assert_eq!(ControlMessage::decode(&[0x15, 0x00, 0x02, 0x05]), Err(CodecError::UnexpectedEnd));
}

#[test]
fn unknown_message_parameters_are_written_but_not_read() {
    let m = ControlMessage::Subscribe(Subscribe {
        request_id: vi(1),
        track_namespace: TrackNamespace(vec![b"a".to_vec()]),
        track_name: b"n".to_vec(),
        parameters: vec![int_pair(0x40, 1)],
    });
    let mut buf = Vec::new();
    m.encode(&mut buf).unwrap();
    assert_eq!(ControlMessage::decode(&buf), Err(CodecError::UnknownMessageParameter(0x40)));
}

#[test]
fn subscribe_fields_are_named_in_order() {
    use_fields();
}

fn use_fields() {
    let m = ControlMessage::Subscribe(Subscribe {
        request_id: vi(1),
        track_namespace: TrackNamespace(vec![b"live".to_vec()]),
        track_name: b"cam".to_vec(),
        parameters: vec![
            int_pair(0x02, 100),
            KeyValuePair { key: vi(0x03), value: KvpValue::Bytes(vec![0x03, 0x01, b'k']) },
            int_pair(0x40, 9),
        ],
    });
    let f = message_fields(&m);
    let names: Vec<&str> = f.entries.iter().map(|e| e.0).collect();
    assert_eq!(names, vec!["request_id", "track_namespace", "track_name", "parameters"]);
    assert_eq!(f.entries[0].1, FieldValue::Uint(1));
    assert_eq!(f.entries[1].1, FieldValue::TextList(vec!["live".to_string()]));
    assert_eq!(f.entries[2].1, FieldValue::Text("cam".to_string()));
    assert_eq!(
        f.entries[3].1,
        FieldValue::Entries(vec![
            ("delivery_timeout", EntryValue::Uint(100)),
            (
                "authorization_token",
                EntryValue::Parts(vec![
                    ("alias_type", Scalar::Uint(3)),
                    ("token_type", Scalar::Uint(1)),
                    ("token_value", Scalar::Bytes(vec![b'k'])),
                ])
            ),
        ])
    );
}

#[test]
fn fetch_ok_fields_leave_out_empty_track_extensions() {
    let m = ControlMessage::MaxRequestId(MaxRequestId { request_id: vi(7) });
    let f = message_fields(&m);
    assert_eq!(f.entries, vec![("max_request_id", FieldValue::Uint(7))]);
}

#[test]
fn malformed_token_and_filter_are_refused_with_details() {
    let bad_token = ControlMessage::Subscribe(Subscribe {
        request_id: vi(1),
        track_namespace: TrackNamespace(vec![b"a".to_vec()]),
        track_name: b"n".to_vec(),
        parameters: vec![KeyValuePair { key: vi(0x03), value: KvpValue::Bytes(vec![0x09]) }],
    });
    let mut buf = Vec::new();
    assert_eq!(
        bad_token.encode(&mut buf),
        Err(CodecError::KeyValueFormatting { key: 3, detail: "its value is not a Token structure that fills it" })
    );
    assert!(buf.is_empty());
    let bad_filter = ControlMessage::Subscribe(Subscribe {
        request_id: vi(1),
        track_namespace: TrackNamespace(vec![b"a".to_vec()]),
        track_name: b"n".to_vec(),
        parameters: vec![KeyValuePair { key: vi(0x21), value: KvpValue::Bytes(Vec::new()) }],
    });
    assert_eq!(
        bad_filter.encode(&mut buf),
        Err(CodecError::SubscriptionFilterMalformed { detail: "its value is not a filter that fills it" })
    );
    assert!(buf.is_empty());
}

#[test]
fn renderability_is_testable_before_rendering() {
    let with_filter = |value: Vec<u8>| {
        ControlMessage::Subscribe(Subscribe {
            request_id: vi(1),
            track_namespace: TrackNamespace(vec![b"a".to_vec()]),
            track_name: b"n".to_vec(),
            parameters: vec![KeyValuePair { key: vi(0x21), value: KvpValue::Bytes(value) }],
        })
    };
    // Absolute Start announces a start group and object that are missing.
    assert!(!message_renderable_exec(&with_filter(vec![0x03])));
    let ok = with_filter(vec![0x03, 0x05, 0x00]);
    assert!(message_renderable_exec(&ok));
    assert_eq!(message_fields(&ok).entries.len(), 4);
    assert!(message_renderable_exec(&ControlMessage::MaxRequestId(MaxRequestId { request_id: vi(1) })));
}
