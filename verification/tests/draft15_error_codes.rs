use moqtap_codec::draft15::error_codes::{
    DataStreamResetErrorCode, PublishDoneStatusCode, RequestErrorCode, SessionErrorCode,
};

#[test]
fn round_trips_known_codes() {
    assert_eq!(SessionErrorCode::from_u64(0x1A), Some(SessionErrorCode::MalformedAuthority));
    assert_eq!(SessionErrorCode::MalformedAuthority.as_u64(), 0x1A);
    assert_eq!(RequestErrorCode::from_u64(0x33), Some(RequestErrorCode::UnknownStatusInRange));
    assert_eq!(RequestErrorCode::UnknownStatusInRange.as_u64(), 0x33);
    assert_eq!(PublishDoneStatusCode::from_u64(0x8), Some(PublishDoneStatusCode::UpdateFailed));
    assert_eq!(PublishDoneStatusCode::UpdateFailed.as_u64(), 0x8);
    assert_eq!(
        DataStreamResetErrorCode::from_u64(0x3),
        Some(DataStreamResetErrorCode::SessionClosed)
    );
    assert_eq!(DataStreamResetErrorCode::SessionClosed.as_u64(), 0x3);
}

#[test]
fn unknown_codes_decode_to_none() {
    assert_eq!(SessionErrorCode::from_u64(0xA), None);
    assert_eq!(SessionErrorCode::from_u64(0x1B), None);
    assert_eq!(RequestErrorCode::from_u64(0x31), None);
    assert_eq!(PublishDoneStatusCode::from_u64(0x9), None);
    assert_eq!(DataStreamResetErrorCode::from_u64(0x4), None);
    assert_eq!(SessionErrorCode::from_u64(u64::MAX), None);
}
