use moqtap_codec::draft14::fields::message_fields;
use moqtap_codec::draft14::message::{
    ClientSetup, ControlMessage, Fetch, FetchOk, FetchPayload, FetchType, MaxRequestId,
    PublishNamespaceCancel, Subscribe, SubscribeOk,
};
use moqtap_codec::error::CodecError;
use moqtap_codec::fields::{EntryValue, FieldValue, Scalar};
use moqtap_codec::kvp::{KeyValuePair, KvpValue};
use moqtap_codec::types::{ContentExists, FilterType, Forward, GroupOrder, Location, TrackNamespace};
use moqtap_codec::varint::VarInt;

fn vi(v: u64) -> VarInt {
    VarInt::from_u64(v).unwrap()
}

fn round_trip(m: &ControlMessage) -> Vec<u8> {
    let mut buf = Vec::new();
    m.encode(&mut buf).unwrap();
    let (back, n) = ControlMessage::decode(&buf).unwrap();
    assert_eq!(&back, m);
    assert_eq!(n, buf.len());
    buf
}

fn subscribe(filter_type: FilterType, start: Option<Location>, end_group: Option<VarInt>) -> ControlMessage {
    ControlMessage::Subscribe(Subscribe {
        request_id: vi(1),
        track_namespace: TrackNamespace(vec![b"a".to_vec()]),
        track_name: b"n".to_vec(),
        subscriber_priority: 0x80,
        group_order: GroupOrder::Ascending,
        forward: Forward::Forward,
        filter_type,
        start_location: start,
        end_group,
        parameters: Vec::new(),
    })
}

fn subscribe_ok(order: GroupOrder, largest: Option<Location>) -> ControlMessage {
    ControlMessage::SubscribeOk(SubscribeOk {
        request_id: vi(1),
        track_alias: vi(2),
        expires: vi(0),
        group_order: order,
        content_exists: if largest.is_some() {
            ContentExists::HasLargestLocation
        } else {
            ContentExists::NoLargestLocation
        },
        largest_location: largest,
        parameters: Vec::new(),
    })
}

#[test]
fn d14_max_request_id_wire_bytes() {
    let m = ControlMessage::MaxRequestId(MaxRequestId { request_id: vi(5) });
    assert_eq!(round_trip(&m), vec![0x15, 0x00, 0x01, 0x05]);
}

#[test]
fn d14_subscribe_absolute_range_wire_bytes() {
    let m = subscribe(FilterType::AbsoluteRange, Some(Location { group: vi(2), object: vi(0) }), Some(vi(5)));
    assert_eq!(
        round_trip(&m),
        vec![
            0x03, 0x00, 0x0e, 0x01, 0x01, 0x01, b'a', 0x01, b'n', 0x80, 0x01, 0x01, 0x04, 0x02, 0x00,
            0x05, 0x00
        ]
    );
}

#[test]
fn d14_subscribe_filters_round_trip() {
    round_trip(&subscribe(FilterType::LargestObject, None, None));
    round_trip(&subscribe(FilterType::AbsoluteStart, Some(Location { group: vi(9), object: vi(3) }), None));
}

#[test]
fn d14_subscribe_discriminators_must_agree() {
    let m = subscribe(FilterType::AbsoluteStart, None, None);
    let mut buf = vec![0x77];
    assert_eq!(m.encode(&mut buf), Err(CodecError::InvalidField));
    assert_eq!(buf, vec![0x77]);
}

#[test]
fn d14_subscribe_ok_round_trips_and_refuses_publisher_order() {
    round_trip(&subscribe_ok(GroupOrder::Descending, Some(Location { group: vi(4), object: vi(1) })));
    round_trip(&subscribe_ok(GroupOrder::Ascending, None));
    let mut buf = Vec::new();
    assert_eq!(subscribe_ok(GroupOrder::Publisher, None).encode(&mut buf), Err(CodecError::InvalidField));
    assert!(buf.is_empty());
    // request 1, alias 2, expires 0, group order 0: refused on the way in too.
    assert_eq!(
        ControlMessage::decode(&[0x04, 0x00, 0x06, 0x01, 0x02, 0x00, 0x00, 0x00, 0x00]),
        Err(CodecError::InvalidField)
    );
    // content exists 5
    assert_eq!(
        ControlMessage::decode(&[0x04, 0x00, 0x06, 0x01, 0x02, 0x00, 0x01, 0x05, 0x00]),
        Err(CodecError::InvalidContentExists(5))
    );
}

#[test]
fn d14_subscribe_byte_rules_on_read() {
    // forward byte 2
    assert_eq!(
        ControlMessage::decode(&[0x03, 0x00, 0x0a, 0x01, 0x01, 0x01, b'a', 0x01, b'n', 0x80, 0x01, 0x02, 0x01]),
        Err(CodecError::InvalidForward(2))
    );
    // filter type 7
    assert_eq!(
        ControlMessage::decode(&[0x03, 0x00, 0x0a, 0x01, 0x01, 0x01, b'a', 0x01, b'n', 0x80, 0x01, 0x01, 0x07]),
        Err(CodecError::InvalidFilterType(7))
    );
    // Only two of the three bytes after the name: the fields run past the end.
    assert_eq!(
        ControlMessage::decode(&[0x03, 0x00, 0x08, 0x01, 0x01, 0x01, b'a', 0x01, b'n', 0x80, 0x07]),
        Err(CodecError::ControlMessageLengthMismatch { declared: 8, detail: "its fields ran past the end" })
    );
}

#[test]
fn d14_client_setup_versions() {
    let m = ControlMessage::ClientSetup(ClientSetup {
        supported_versions: vec![vi(0xff00_000e), vi(1)],
        parameters: vec![KeyValuePair { key: vi(0x05), value: KvpValue::Bytes(b"relay.example".to_vec()) }],
    });
    round_trip(&m);
    // no versions at all
    assert_eq!(ControlMessage::decode(&[0x20, 0x00, 0x02, 0x00, 0x00]), Err(CodecError::InvalidField));
    let f = message_fields(&m);
    assert_eq!(f.entries[0], ("supported_versions", FieldValue::UintList(vec![0xff00_000e, 1])));
    assert_eq!(
        f.entries[1],
        ("parameters", FieldValue::Entries(vec![("authority", EntryValue::Text("relay.example".to_string()))]))
    );
}

#[test]
fn d14_fetch_round_trips_and_refuses_unknown_type() {
    let m = ControlMessage::Fetch(Fetch {
        request_id: vi(3),
        subscriber_priority: 1,
        group_order: GroupOrder::Publisher,
        fetch_type: FetchType::Standalone,
        fetch_payload: FetchPayload::Standalone {
            track_namespace: TrackNamespace(vec![b"ns".to_vec()]),
            track_name: b"t".to_vec(),
            start_group: vi(1),
            start_object: vi(0),
            end_group: vi(2),
            end_object: vi(0),
        },
        parameters: Vec::new(),
    });
    round_trip(&m);
    assert_eq!(
        ControlMessage::decode(&[0x16, 0x00, 0x04, 0x03, 0x01, 0x00, 0x09]),
        Err(CodecError::InvalidFetchType(9))
    );
    let ok = ControlMessage::FetchOk(FetchOk {
        request_id: vi(3),
        group_order: GroupOrder::Ascending,
        end_of_track: 1,
        end_location: Location { group: vi(7), object: vi(8) },
        parameters: Vec::new(),
    });
    round_trip(&ok);
    let f = message_fields(&ok);
    assert_eq!(
        f.entries[3],
        ("end_location", FieldValue::Parts(vec![("group", Scalar::Uint(7)), ("object", Scalar::Uint(8))]))
    );
}

#[test]
fn d14_writer_checks_caps_before_namespace() {
    let cancel = ControlMessage::PublishNamespaceCancel(PublishNamespaceCancel {
        track_namespace: TrackNamespace(Vec::new()),
        error_code: vi(1),
        reason_phrase: vec![b'x'; 1025],
    });
    let mut buf = Vec::new();
    assert_eq!(cancel.encode(&mut buf), Err(CodecError::ReasonPhraseTooLong));
    let long_name = ControlMessage::Subscribe(Subscribe {
        request_id: vi(1),
        track_namespace: TrackNamespace(Vec::new()),
        track_name: vec![b'n'; 4097],
        subscriber_priority: 0,
        group_order: GroupOrder::Ascending,
        forward: Forward::Forward,
        filter_type: FilterType::LargestObject,
        start_location: None,
        end_group: None,
        parameters: Vec::new(),
    });
    assert_eq!(long_name.encode(&mut buf), Err(CodecError::TrackNameTooLong));
    let empty_ns = subscribe(FilterType::LargestObject, None, None);
    let empty_ns = match empty_ns {
        ControlMessage::Subscribe(mut s) => {
            s.track_namespace = TrackNamespace(Vec::new());
            ControlMessage::Subscribe(s)
        }
        other => other,
    };
    assert_eq!(empty_ns.encode(&mut buf), Err(CodecError::InvalidField));
    assert!(buf.is_empty());
}

#[test]
fn d14_subscribe_fields_in_order() {
    let m = subscribe(FilterType::AbsoluteRange, Some(Location { group: vi(2), object: vi(0) }), Some(vi(5)));
    let m = match m {
        ControlMessage::Subscribe(mut s) => {
            s.parameters = vec![
                KeyValuePair { key: vi(0x02), value: KvpValue::Varint(vi(100)) },
                KeyValuePair { key: vi(0x03), value: KvpValue::Bytes(vec![0x03, 0x01, b'k']) },
                KeyValuePair { key: vi(0x40), value: KvpValue::Varint(vi(1)) },
            ];
            ControlMessage::Subscribe(s)
        }
        other => other,
    };
    let f = message_fields(&m);
    let names: Vec<&str> = f.entries.iter().map(|e| e.0).collect();
    assert_eq!(
        names,
        vec![
            "request_id", "track_namespace", "track_name", "subscriber_priority", "group_order",
            "forward", "filter_type", "start_group", "start_object", "end_group", "parameters"
        ]
    );
    assert_eq!(f.entries[3].1, FieldValue::Uint(0x80));
    assert_eq!(f.entries[6].1, FieldValue::Uint(4));
    assert_eq!(
        f.entries[10].1,
        FieldValue::Entries(vec![
            ("delivery_timeout", EntryValue::Uint(100)),
            (
                "authorization_token",
                EntryValue::Parts(vec![
                    ("alias_type", Scalar::Uint(3)),
                    ("token_type", Scalar::Uint(1)),
                    ("token_value", Scalar::Bytes(vec![b'k'])),
                ])
            ),
        ])
    );
    let ok = subscribe_ok(GroupOrder::Ascending, None);
    let names: Vec<&str> = message_fields(&ok).entries.iter().map(|e| e.0).collect();
    assert_eq!(names, vec!["request_id", "track_alias", "expires", "group_order", "content_exists", "parameters"]);
}
