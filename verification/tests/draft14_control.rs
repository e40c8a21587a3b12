use moqtap_codec::draft14::message::{
    check_ranges, ControlMessage, Subscribe, SubscribeUpdate, Unsubscribe,
};
use moqtap_codec::draft14::params::{decode_parameters, decode_setup_parameters, encode_parameters};
use moqtap_codec::error::CodecError;
use moqtap_codec::kvp::{KeyValuePair, KvpValue};
use moqtap_codec::types::{FilterType, Forward, GroupOrder, Location, TrackNamespace};
use moqtap_codec::varint::VarInt;

fn vi(v: u64) -> VarInt {
    VarInt::from_u64(v).unwrap()
}

fn subscribe_range(start: u64, end: u64) -> ControlMessage {
    ControlMessage::Subscribe(Subscribe {
        request_id: vi(1),
        track_namespace: TrackNamespace(vec![b"a".to_vec()]),
        track_name: b"n".to_vec(),
        subscriber_priority: 0,
        group_order: GroupOrder::Ascending,
        forward: Forward::Forward,
        filter_type: FilterType::AbsoluteRange,
        start_location: Some(Location { group: vi(start), object: vi(0) }),
        end_group: Some(vi(end)),
        parameters: Vec::new(),
    })
}

fn update(start: u64, end: u64) -> ControlMessage {
    ControlMessage::SubscribeUpdate(SubscribeUpdate {
        request_id: vi(2),
        subscription_request_id: vi(1),
        start_location: Location { group: vi(start), object: vi(0) },
        end_group: vi(end),
        subscriber_priority: 0,
        forward: Forward::Forward,
        parameters: Vec::new(),
    })
}

#[test]
fn d14_subscribe_range_is_inclusive() {
    assert_eq!(check_ranges(&subscribe_range(3, 3)), Ok(()));
    assert_eq!(check_ranges(&subscribe_range(3, 2)), Err(CodecError::InvalidField));
}

#[test]
fn d14_subscribe_update_end_is_one_past_or_open() {
    assert_eq!(check_ranges(&update(3, 0)), Ok(()));
    assert_eq!(check_ranges(&update(3, 4)), Ok(()));
    assert_eq!(check_ranges(&update(3, 3)), Err(CodecError::InvalidField));
    assert_eq!(check_ranges(&ControlMessage::Unsubscribe(Unsubscribe { request_id: vi(1) })), Ok(()));
}

#[test]
fn d14_parameters_refuse_named_repeats_only() {
    // Two DELIVERY TIMEOUT pairs.
    assert_eq!(decode_parameters(&[0x02, 0x02, 0x05, 0x02, 0x06], 0), Err(CodecError::DuplicateParameter(2)));
    // Two pairs of a Type the draft does not name are carried.
    let (ps, n) = decode_parameters(&[0x02, 0x20, 0x05, 0x20, 0x06, 0xff], 0).unwrap();
    assert_eq!(n, 5);
    assert_eq!(ps.len(), 2);
    // The setup namespace names 0x05, the message namespace does not.
    assert_eq!(decode_setup_parameters(&[0x02, 0x05, 0x00, 0x05, 0x00], 0), Err(CodecError::DuplicateParameter(5)));
    assert!(decode_parameters(&[0x02, 0x05, 0x00, 0x05, 0x00], 0).is_ok());
}

#[test]
fn d14_parameters_writer_refuses_every_repeat_and_bad_tokens() {
    let twice = vec![
        KeyValuePair { key: vi(0x20), value: KvpValue::Varint(vi(1)) },
        KeyValuePair { key: vi(0x20), value: KvpValue::Varint(vi(2)) },
    ];
    let mut buf = Vec::new();
    assert_eq!(encode_parameters(&twice, &mut buf), Err(CodecError::DuplicateParameter(0x20)));
    let token = vec![KeyValuePair { key: vi(0x03), value: KvpValue::Bytes(vec![0x09]) }];
    assert_eq!(
        encode_parameters(&token, &mut buf),
        Err(CodecError::KeyValueFormatting { key: 3, detail: "its value is not a Token structure that fills it" })
    );
    let one = vec![KeyValuePair { key: vi(0x02), value: KvpValue::Varint(vi(7)) }];
    let mut out = Vec::new();
    encode_parameters(&one, &mut out).unwrap();
    assert_eq!(out, vec![0x01, 0x02, 0x07]);
    let (back, n) = decode_parameters(&out, 0).unwrap();
    assert_eq!(back, one);
    assert_eq!(n, 3);
}
