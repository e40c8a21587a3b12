use moqtap_codec::draft14::message as m14;
use moqtap_codec::draft15::message as m15;
use moqtap_codec::draft16::message::{
    add_delta, check_discriminators, check_full_track_name, read_reason_phrase, check_message_parameters_are_known,
    check_parameter_value_ranges, check_received_duplicate_parameters,
    check_sent_duplicate_parameters, check_track_extension_values, decode_delta_run,
    decode_kvp_delta_pair, decode_track_extensions, encode_kvp_delta_pair, encode_track_extensions,
    parameter_value_in_range, track_extension_value_in_range, ControlMessage, Fetch, FetchPayload,
    FetchType, MaxRequestId, MessageType, KNOWN_SETUP_PARAMETERS,
};
use moqtap_codec::error::{CodecError, KvpError, VarIntError};
use moqtap_codec::kvp::{KeyValuePair, KvpValue};
use moqtap_codec::types::{GroupOrder, TrackNamespace};
use moqtap_codec::varint::VarInt;

fn vi(v: u64) -> VarInt {
    VarInt::from_u64(v).unwrap()
}

fn int_pair(key: u64, value: u64) -> KeyValuePair {
    KeyValuePair { key: vi(key), value: KvpValue::Varint(vi(value)) }
}

fn bytes_pair(key: u64, value: &[u8]) -> KeyValuePair {
    KeyValuePair { key: vi(key), value: KvpValue::Bytes(value.to_vec()) }
}

// ── message types ───────────────────────────────────────────

#[test]
fn message_type_ids_round_trip() {
    for id in 0u64..0x40 {
        if let Some(t) = MessageType::from_id(id) {
            assert_eq!(t.id(), id);
        }
        if let Some(t) = m15::MessageType::from_id(id) {
            assert_eq!(t.id(), id);
        }
        if let Some(t) = m14::MessageType::from_id(id) {
            assert_eq!(t.id(), id);
        }
    }
    assert_eq!(MessageType::from_id(0x03), Some(MessageType::Subscribe));
    assert_eq!(MessageType::from_id(0x20), Some(MessageType::ClientSetup));
    assert_eq!(MessageType::from_id(0x0F), None);
    assert_eq!(MessageType::from_id(0x40), None);
    assert_eq!(m14::MessageType::from_id(0x1F), Some(m14::MessageType::PublishError));
    assert_eq!(m14::MessageType::PublishError.id(), 0x1F);
}

#[test]
fn fetch_type_values() {
    assert_eq!(FetchType::from_u64(1), Some(FetchType::Standalone));
    assert_eq!(FetchType::from_u64(2), Some(FetchType::RelativeJoining));
    assert_eq!(FetchType::from_u64(3), Some(FetchType::AbsoluteJoining));
    assert_eq!(FetchType::from_u64(0), None);
    assert_eq!(FetchType::from_u64(4), None);
    assert_eq!(m14::FetchType::from_u64(2), Some(m14::FetchType::RelativeJoining));
}

#[test]
fn fetch_type_must_match_its_payload() {
    let joining = FetchPayload::Joining { joining_request_id: vi(1), joining_start: vi(0) };
    let good = ControlMessage::Fetch(Fetch {
        request_id: vi(4),
        fetch_type: FetchType::RelativeJoining,
        fetch_payload: joining.clone(),
        parameters: Vec::new(),
    });
    assert_eq!(check_discriminators(&good), Ok(()));
    assert_eq!(good.message_type(), MessageType::Fetch);
    let bad = ControlMessage::Fetch(Fetch {
        request_id: vi(4),
        fetch_type: FetchType::Standalone,
        fetch_payload: joining,
        parameters: Vec::new(),
    });
    assert_eq!(check_discriminators(&bad), Err(CodecError::InvalidField));
    let other = ControlMessage::MaxRequestId(MaxRequestId { request_id: vi(9) });
    assert_eq!(check_discriminators(&other), Ok(()));
    assert_eq!(other.message_type(), MessageType::MaxRequestId);
}

// ── parameters ──────────────────────────────────────────────

#[test]
fn only_the_authorization_token_may_repeat_when_sent() {
    let ok = vec![int_pair(0x02, 5), bytes_pair(0x03, b"a"), bytes_pair(0x03, b"b")];
    assert_eq!(check_sent_duplicate_parameters(&ok), Ok(()));
    let dup = vec![int_pair(0x02, 5), int_pair(0x40, 1), int_pair(0x40, 2), int_pair(0x02, 6)];
    assert_eq!(check_sent_duplicate_parameters(&dup), Err(CodecError::DuplicateParameter(0x40)));
    assert_eq!(
        m14::check_no_duplicate_parameters_sent(&dup),
        Err(CodecError::DuplicateParameter(0x40))
    );
    assert_eq!(
        m15::check_no_duplicate_parameters_sent(&dup),
        Err(CodecError::DuplicateParameter(0x40))
    );
}

#[test]
fn received_duplicates_of_unknown_types_are_carried() {
    let ps = vec![int_pair(0x40, 1), int_pair(0x40, 2), int_pair(0x02, 5), int_pair(0x02, 6)];
    assert_eq!(check_received_duplicate_parameters(&ps, &[]), Ok(()));
    assert_eq!(
        check_received_duplicate_parameters(&ps, &KNOWN_SETUP_PARAMETERS),
        Err(CodecError::DuplicateParameter(0x02))
    );
    assert_eq!(
        m14::check_no_duplicate_parameters_received(&ps, &[0x40]),
        Err(CodecError::DuplicateParameter(0x40))
    );
}

#[test]
fn unknown_message_parameters_are_named() {
    assert_eq!(check_message_parameters_are_known(&[int_pair(0x02, 1), int_pair(0x20, 3)]), Ok(()));
    assert_eq!(
        check_message_parameters_are_known(&[int_pair(0x02, 1), int_pair(0x04, 3), int_pair(0x06, 0)]),
        Err(CodecError::UnknownMessageParameter(0x04))
    );
}

#[test]
fn parameter_value_ranges() {
    assert!(!parameter_value_in_range(0x02, 0));
    assert!(parameter_value_in_range(0x02, 1));
    assert!(parameter_value_in_range(0x10, 1));
    assert!(!parameter_value_in_range(0x10, 2));
    assert!(parameter_value_in_range(0x20, 255));
    assert!(!parameter_value_in_range(0x20, 256));
    assert!(!parameter_value_in_range(0x22, 0));
    assert!(parameter_value_in_range(0x22, 2));
    assert!(!parameter_value_in_range(0x22, 3));
    assert!(parameter_value_in_range(0x44, u64::MAX));
    assert!(!m15::parameter_value_in_range(0x10, 2));
    let ps = vec![bytes_pair(0x03, b"t"), int_pair(0x20, 7), int_pair(0x10, 2), int_pair(0x02, 0)];
    assert_eq!(
        check_parameter_value_ranges(&ps),
        Err(CodecError::ParameterValueOutOfRange { key: 0x10, value: 2 })
    );
    assert_eq!(check_parameter_value_ranges(&ps[..2]), Ok(()));
    assert_eq!(
        m15::check_parameter_value_ranges(&ps),
        Err(CodecError::ParameterValueOutOfRange { key: 0x10, value: 2 })
    );
}

// ── delta-encoded key-value pairs ───────────────────────────

#[test]
fn add_delta_stays_in_varint_range() {
    assert_eq!(add_delta(3, 4), Ok(vi(7)));
    assert_eq!(add_delta(0, (1 << 62) - 1), Ok(vi((1 << 62) - 1)));
    assert_eq!(add_delta(1, (1 << 62) - 1), Err(CodecError::KeyDeltaOverflow(1, (1 << 62) - 1)));
    assert_eq!(add_delta(u64::MAX, 1), Err(CodecError::KeyDeltaOverflow(u64::MAX, 1)));
}

#[test]
fn a_pair_is_read_relative_to_the_one_before() {
    // After Type 2: delta 2 gives Type 4 (even, varint value 9).
    let mut prev = 2u64;
    let (pair, end) = decode_kvp_delta_pair(&mut prev, &[0x02, 0x09], 0).unwrap();
    assert_eq!(pair, int_pair(4, 9));
    assert_eq!(end, 2);
    assert_eq!(prev, 4);
    // Delta 1 gives Type 5 (odd, two bytes).
    let (pair, end) = decode_kvp_delta_pair(&mut prev, &[0xff, 0x01, 0x02, 0xaa, 0xbb], 1).unwrap();
    assert_eq!(pair, bytes_pair(5, &[0xaa, 0xbb]));
    assert_eq!(end, 5);
    assert_eq!(prev, 5);
    // A value that runs past the buffer.
    let mut prev = 0u64;
    assert_eq!(decode_kvp_delta_pair(&mut prev, &[0x01, 0x03, 0xaa], 0), Err(CodecError::UnexpectedEnd));
    assert_eq!(prev, 1);
}

#[test]
fn a_byte_value_is_limited_in_length() {
    // Type 1 with a declared length of 0x10000.
    let mut prev = 0u64;
    assert_eq!(
        decode_kvp_delta_pair(&mut prev, &[0x01, 0x80, 0x01, 0x00, 0x00], 0),
        Err(CodecError::Kvp(KvpError::ValueTooLong(0x10000)))
    );
    let mut prev = 0u64;
    let mut buf = Vec::new();
    let big = bytes_pair(1, &vec![0u8; 0x10000]);
    assert_eq!(
        encode_kvp_delta_pair(&mut prev, &big, &mut buf),
        Err(CodecError::Kvp(KvpError::ValueTooLong(0x10000)))
    );
}

#[test]
fn pairs_are_written_in_ascending_type_order() {
    let mut prev = 4u64;
    let mut buf = vec![0xee];
    assert_eq!(
        encode_kvp_delta_pair(&mut prev, &int_pair(2, 1), &mut buf),
        Err(CodecError::ParametersOutOfOrder(4, 2))
    );
    assert_eq!(buf, vec![0xee]);
    assert_eq!(prev, 4);
    encode_kvp_delta_pair(&mut prev, &int_pair(6, 1), &mut buf).unwrap();
    encode_kvp_delta_pair(&mut prev, &bytes_pair(9, b"xy"), &mut buf).unwrap();
    assert_eq!(buf, vec![0xee, 0x02, 0x01, 0x03, 0x02, b'x', b'y']);
    assert_eq!(prev, 9);
}

#[test]
fn a_run_reads_to_the_end_of_the_buffer() {
    let bytes = [0x02, 0x05, 0x01, 0x01, 0x7a, 0x00, 0x00];
    let run = decode_delta_run(&bytes, 0).unwrap();
    assert_eq!(run, vec![int_pair(2, 5), bytes_pair(3, b"z"), bytes_pair(3, &[])]);
    assert_eq!(decode_delta_run(&[], 0), Ok(Vec::new()));
    assert_eq!(decode_delta_run(&[0x02], 0), Err(CodecError::VarInt(VarIntError::UnexpectedEnd)));
}

#[test]
fn track_extensions_round_trip() {
    let exts = vec![int_pair(0x02, 100), bytes_pair(0x03, b"ab"), int_pair(0x22, 2), int_pair(0x30, 1)];
    let mut buf = Vec::new();
    encode_track_extensions(&exts, &mut buf).unwrap();
    assert_eq!(buf, vec![0x02, 0x40, 0x64, 0x01, 0x02, b'a', b'b', 0x1f, 0x02, 0x0e, 0x01]);
    assert_eq!(decode_track_extensions(&buf, 0), Ok(exts));
}

#[test]
fn track_extension_values_are_range_checked() {
    assert!(!track_extension_value_in_range(0x02, 0));
    assert!(!track_extension_value_in_range(0x22, 0));
    assert!(!track_extension_value_in_range(0x30, 2));
    assert!(track_extension_value_in_range(0x31, 2));
    let bad = vec![int_pair(0x02, 1), int_pair(0x30, 2)];
    let mut buf = vec![0x77];
    assert_eq!(
        encode_track_extensions(&bad, &mut buf),
        Err(CodecError::TrackPropertyValueOutOfRange { key: 0x30, value: 2 })
    );
    assert_eq!(buf, vec![0x77]);
    assert_eq!(
        decode_track_extensions(&[0x30, 0x02], 0),
        Err(CodecError::TrackPropertyValueOutOfRange { key: 0x30, value: 2 })
    );
}

#[test]
fn immutable_extensions_are_checked_inside() {
    // IMMUTABLE_EXTENSIONS (0x0B) holding a run with DYNAMIC_GROUPS = 5.
    let nested = vec![bytes_pair(0x0B, &[0x30, 0x05])];
    assert_eq!(
        check_track_extension_values(&nested),
        Err(CodecError::TrackPropertyValueOutOfRange { key: 0x30, value: 5 })
    );
    // A value that does not read as a run is carried unchecked.
    let opaque = vec![bytes_pair(0x0B, &[0x30])];
    assert_eq!(check_track_extension_values(&opaque), Ok(()));
    // Another odd type is never looked into.
    let other = vec![bytes_pair(0x0D, &[0x30, 0x05])];
    assert_eq!(check_track_extension_values(&other), Ok(()));
}

// ── track names, reason phrases, group orders ───────────────

#[test]
fn full_track_name_cap() {
    let ns = TrackNamespace(vec![vec![b'a'; 1000], vec![b'b'; 2000]]);
    assert_eq!(ns.field_bytes_len(), 3000);
    assert_eq!(check_full_track_name(&ns, &vec![b'n'; 1096]), Ok(()));
    assert_eq!(check_full_track_name(&ns, &vec![b'n'; 1097]), Err(CodecError::TrackNameTooLong));
    assert_eq!(m14::check_full_track_name(&ns, &vec![b'n'; 1097]), Err(CodecError::TrackNameTooLong));
    assert_eq!(m15::check_full_track_name(&TrackNamespace(Vec::new()), &vec![b'n'; 4096]), Ok(()));
}

#[test]
fn reason_phrase_cap() {
    let mut ok = vec![0x44, 0x00];
    ok.extend(vec![b'r'; 1024]);
    let (phrase, end) = read_reason_phrase(&ok, 0).unwrap();
    assert_eq!(phrase.len(), 1024);
    assert_eq!(end, 1026);
    // 1025 bytes announced: refused before any of them is looked for.
    assert_eq!(read_reason_phrase(&[0x44, 0x01], 0), Err(CodecError::ReasonPhraseTooLong));
    assert_eq!(m14::read_reason_phrase(&[0x03, b'a', b'b'], 0), Err(CodecError::UnexpectedEnd));
    assert_eq!(m15::read_reason_phrase(&[0xff, 0x02, b'o', b'k'], 1), Ok((b"ok".to_vec(), 4)));
}

#[test]
fn a_response_names_its_group_order() {
    assert_eq!(m14::read_group_order_response(&[0x01], 0), Ok((GroupOrder::Ascending, 1)));
    assert_eq!(m14::read_group_order_response(&[0x00, 0x02], 1), Ok((GroupOrder::Descending, 2)));
    assert_eq!(m14::read_group_order_response(&[0x00], 0), Err(CodecError::InvalidField));
    assert_eq!(m14::read_group_order_response(&[0x03], 0), Err(CodecError::InvalidField));
    assert_eq!(m14::read_group_order_response(&[], 0), Err(CodecError::UnexpectedEnd));
    assert_eq!(GroupOrder::from_u8(0), Some(GroupOrder::Publisher));
}
