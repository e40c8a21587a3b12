use moqtap_codec::draft14::error_codes as e14;
use moqtap_codec::draft16::error_codes as e16;
use moqtap_codec::draft16::types::ObjectStatus;
use moqtap_codec::error::VarIntError;
use moqtap_codec::varint::VarInt;

fn encoded(v: u64) -> Vec<u8> {
    let mut buf = Vec::new();
    VarInt::from_u64(v).unwrap().encode(&mut buf);
    buf
}

#[test]
fn varint_boundaries_use_the_shortest_form() {
    assert_eq!(encoded(0), vec![0x00]);
    assert_eq!(encoded(63), vec![0x3f]);
    assert_eq!(encoded(64), vec![0x40, 0x40]);
    assert_eq!(encoded(16383), vec![0x7f, 0xff]);
    assert_eq!(encoded(16384), vec![0x80, 0x00, 0x40, 0x00]);
    assert_eq!(encoded(0x3fff_ffff), vec![0xbf, 0xff, 0xff, 0xff]);
    assert_eq!(encoded(0x4000_0000), vec![0xc0, 0, 0, 0, 0x40, 0, 0, 0]);
    assert_eq!(encoded((1 << 62) - 1), vec![0xff; 8]);
    for v in [0u64, 63, 64, 16383, 16384, 0x3fff_ffff, 0x4000_0000, (1 << 62) - 1] {
        let x = VarInt::from_u64(v).unwrap();
        assert_eq!(x.encoded_len(), encoded(v).len());
        assert_eq!(VarInt::decode(&encoded(v)), Ok((x, encoded(v).len())));
    }
}

#[test]
fn varint_refuses_what_it_cannot_hold() {
    assert_eq!(VarInt::from_u64(1 << 62), Err(VarIntError::ValueTooLarge(1 << 62)));
    assert_eq!(VarInt::from_u64(u64::MAX), Err(VarIntError::ValueTooLarge(u64::MAX)));
    assert_eq!(VarInt::decode(&[]), Err(VarIntError::UnexpectedEnd));
    assert_eq!(VarInt::decode(&[0x80, 0x00, 0x01]), Err(VarIntError::UnexpectedEnd));
    // A longer-than-needed spelling still reads as its value.
    assert_eq!(VarInt::decode(&[0x40, 0x05]), Ok((VarInt::from_u64(5).unwrap(), 2)));
    assert_eq!(VarInt::decode_at(&[0xaa, 0x25], 1), Ok((VarInt::from_u64(0x25).unwrap(), 2)));
}

#[test]
fn draft16_codes_round_trip() {
    assert_eq!(e16::SessionErrorCode::from_u64(0x10), Some(e16::SessionErrorCode::GoawayTimeout));
    assert_eq!(e16::SessionErrorCode::GoawayTimeout.as_u64(), 0x10);
    assert_eq!(e16::SessionErrorCode::from_u64(0xA), None);
    assert_eq!(e16::RequestErrorCode::from_u64(0x32), Some(e16::RequestErrorCode::InvalidJoiningRequestId));
    assert_eq!(e16::RequestErrorCode::from_u64(0x31), None);
    for v in 0u64..0x40 {
        if let Some(c) = e16::SessionErrorCode::from_u64(v) {
            assert_eq!(c.as_u64(), v);
        }
        if let Some(c) = e16::RequestErrorCode::from_u64(v) {
            assert_eq!(c.as_u64(), v);
        }
        if let Some(c) = e16::PublishDoneStatusCode::from_u64(v) {
            assert_eq!(c.as_u64(), v);
        }
        if let Some(c) = e16::DataStreamResetErrorCode::from_u64(v) {
            assert_eq!(c.as_u64(), v);
        }
        if let Some(s) = ObjectStatus::from_u64(v) {
            assert_eq!(s.as_u64(), v);
        }
    }
}

#[test]
fn draft14_codes_round_trip() {
    assert_eq!(e14::FetchErrorCode::from_u64(0x12), Some(e14::FetchErrorCode::ExpiredAuthToken));
    assert_eq!(e14::FetchErrorCode::ExpiredAuthToken.as_u64(), 0x12);
    assert_eq!(e14::FetchErrorCode::from_u64(0x11), None);
    for v in 0u64..0x40 {
        if let Some(c) = e14::SessionErrorCode::from_u64(v) {
            assert_eq!(c.as_u64(), v);
        }
        if let Some(c) = e14::SubscribeErrorCode::from_u64(v) {
            assert_eq!(c.as_u64(), v);
        }
        if let Some(c) = e14::PublishErrorCode::from_u64(v) {
            assert_eq!(c.as_u64(), v);
        }
        if let Some(c) = e14::FetchErrorCode::from_u64(v) {
            assert_eq!(c.as_u64(), v);
        }
        if let Some(c) = e14::AnnounceErrorCode::from_u64(v) {
            assert_eq!(c.as_u64(), v);
        }
        if let Some(c) = e14::SubscribeNamespaceErrorCode::from_u64(v) {
            assert_eq!(c.as_u64(), v);
        }
        if let Some(c) = e14::DataStreamResetErrorCode::from_u64(v) {
            assert_eq!(c.as_u64(), v);
        }
    }
}
